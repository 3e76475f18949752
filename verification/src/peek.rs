//! The answer to a peek, as far as the harness reads it.

use vstd::prelude::*;

verus! {

/// A value as a query returns it in a row. The harness looks for the
/// boolean true and for nothing else.
#[derive(Clone, Debug, PartialEq, Eq)]
pub enum Datum {
    False,
    True,
    Null,
    Int64(i64),
    String(String),
}

/// The answer to a peek: rows, an error, or word that it was canceled.
#[derive(Clone, Debug, PartialEq, Eq)]
pub enum PeekResult {
    Rows(Vec<Vec<Datum>>),
    Error(String),
    Canceled,
}

} // verus!
