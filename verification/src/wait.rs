//! The retry loop of `wait-sql`: the checks that one attempt must pass, and
//! what follows a failed attempt.
//!
//! An attempt passes when every statement streams rows and every datum of
//! every row is the boolean true. After a failed attempt the logical clock
//! moves by one and the next attempt starts at once; nothing sleeps. Only
//! the time spent since the loop began is real: once it is over the limit, a
//! failed attempt ends the run with the reason of its failure.

use crate::catalog::{resolve, Catalog, CatalogError, CatalogMiss};
use crate::clock::LogicalClock;
use crate::feedback::ObjectId;
use crate::peek::{Datum, PeekResult};
use crate::text::texts;
use std::collections::HashSet;
use vstd::prelude::*;

verus! {

/// The seconds after which a failed attempt is not repeated.
pub const WAIT_LIMIT_SECS: u64 = 5;

/// The outcome of a statement once its rows, if it streams any, are there.
#[derive(Clone, Debug, PartialEq, Eq)]
pub enum Resolved {
    /// The statement streamed rows, and this is the answer to its peek.
    Rows(PeekResult),
    /// The statement answered with something else.
    NotRows,
}

/// Why an attempt failed.
#[derive(Clone, Debug, PartialEq, Eq)]
pub enum WaitFailure {
    /// The batch did not run to its end; the message says why.
    Execution(String),
    /// A peek was answered with an error.
    PeekError(String),
    /// A peek was canceled.
    PeekCanceled,
    /// A datum is not the boolean true.
    DatumNotTrue,
}

/// What the checks say of one attempt.
#[derive(Clone, Debug, PartialEq, Eq)]
pub enum WaitVerdict {
    /// Every check passed.
    AllTrue,
    /// A check failed; the attempt may be repeated.
    Failed(WaitFailure),
    /// A statement did not stream rows: the script is wrong, and no
    /// repetition will mend it.
    ProtocolViolation,
}

/// How the loop goes on after an attempt.
#[derive(Clone, Copy, Debug, PartialEq, Eq)]
pub enum WaitStep {
    /// The wait is over.
    Done,
    /// The clock has moved; run the next attempt now.
    Retry,
}

/// Why the loop gave up.
#[derive(Clone, Debug, PartialEq, Eq)]
pub enum WaitError {
    /// The time was up; the reason is that of the last failed attempt.
    Timeout(WaitFailure),
    /// A statement did not stream rows.
    ProtocolViolation,
}

/// Whether every datum of a row is the boolean true.
pub open spec fn row_all_true(row: Seq<Datum>) -> bool {
    forall|j: int| 0 <= j < row.len() ==> #[trigger] row[j] is True
}

/// Whether every datum of every row is the boolean true.
pub open spec fn rows_all_true(rows: Seq<Vec<Datum>>) -> bool {
    forall|i: int| 0 <= i < rows.len() ==> row_all_true(#[trigger] rows[i]@)
}

/// Why one answer fails the checks, if it does.
pub open spec fn failure_of(answer: PeekResult) -> Option<WaitFailure> {
    match answer {
        PeekResult::Rows(rows) => if rows_all_true(rows@) {
            None
        } else {
            Some(WaitFailure::DatumNotTrue)
        },
        PeekResult::Error(message) => Some(WaitFailure::PeekError(message)),
        PeekResult::Canceled => Some(WaitFailure::PeekCanceled),
    }
}

/// Whether some statement did not stream rows.
pub open spec fn some_not_rows(results: Seq<Resolved>) -> bool {
    exists|i: int| 0 <= i < results.len() && #[trigger] results[i] is NotRows
}

/// The failure of the last answer that fails the checks.
pub open spec fn last_failure(results: Seq<Resolved>) -> Option<WaitFailure>
    decreases results.len(),
{
    if results.len() == 0 {
        None
    } else {
        let here = match results.last() {
            Resolved::Rows(answer) => failure_of(answer),
            Resolved::NotRows => None,
        };
        match here {
            Some(failure) => Some(failure),
            None => last_failure(results.drop_last()),
        }
    }
}

/// What the checks say of the resolved outcomes of an attempt.
pub open spec fn results_verdict(results: Seq<Resolved>) -> WaitVerdict {
    if some_not_rows(results) {
        WaitVerdict::ProtocolViolation
    } else {
        match last_failure(results) {
            Some(failure) => WaitVerdict::Failed(failure),
            None => WaitVerdict::AllTrue,
        }
    }
}

/// What the checks say of an attempt: of the error with which its batch
/// ended, or of the resolved outcomes of its statements.
pub open spec fn verdict_of(attempt: Result<Vec<Resolved>, String>) -> WaitVerdict {
    match attempt {
        Err(message) => WaitVerdict::Failed(WaitFailure::Execution(message)),
        Ok(results) => results_verdict(results@),
    }
}

/// An attempt passes exactly when its batch ran to its end, every statement
/// streamed rows, and all rows hold nothing but true.
pub proof fn lemma_all_true(results: Seq<Resolved>)
    ensures
        last_failure(results) is None <==> forall|i: int|
            0 <= i < results.len() ==> (#[trigger] results[i] matches Resolved::Rows(answer)
                ==> answer matches PeekResult::Rows(rows) && rows_all_true(rows@)),
    decreases results.len(),
{
    if results.len() > 0 {
        let front = results.drop_last();
        lemma_all_true(front);
        if last_failure(results) is None {
            assert forall|i: int| 0 <= i < results.len() implies (
            #[trigger] results[i] matches Resolved::Rows(answer) ==> answer matches
                PeekResult::Rows(rows) && rows_all_true(rows@)) by {
                if i < results.len() - 1 {
                    assert(front[i] == results[i]);
                }
            }
        } else {
            if last_failure(front) is Some {
                let i = choose|i: int|
                    0 <= i < front.len() && !(#[trigger] front[i] matches Resolved::Rows(answer)
                        ==> answer matches PeekResult::Rows(rows) && rows_all_true(rows@));
                assert(results[i] == front[i]);
            } else {
                assert(results[results.len() - 1] == results.last());
            }
        }
    }
}

/// Whether the time spent is over the limit.
pub open spec fn timed_out(elapsed_secs: u64, elapsed_subsec_nanos: u32) -> bool {
    elapsed_secs > WAIT_LIMIT_SECS || (elapsed_secs == WAIT_LIMIT_SECS && elapsed_subsec_nanos > 0)
}

/// Whether the time spent is over the limit.
pub fn is_timed_out(elapsed_secs: u64, elapsed_subsec_nanos: u32) -> (over: bool)
    ensures
        over == timed_out(elapsed_secs, elapsed_subsec_nanos),
{
    elapsed_secs > WAIT_LIMIT_SECS || (elapsed_secs == WAIT_LIMIT_SECS && elapsed_subsec_nanos > 0)
}

/// What follows an attempt with the given verdict.
pub open spec fn wait_next(
    verdict: WaitVerdict,
    elapsed_secs: u64,
    elapsed_subsec_nanos: u32,
) -> Result<WaitStep, WaitError> {
    match verdict {
        WaitVerdict::AllTrue => Ok(WaitStep::Done),
        WaitVerdict::ProtocolViolation => Err(WaitError::ProtocolViolation),
        WaitVerdict::Failed(failure) => if timed_out(elapsed_secs, elapsed_subsec_nanos) {
            Err(WaitError::Timeout(failure))
        } else {
            Ok(WaitStep::Retry)
        },
    }
}

fn check_row(row: &Vec<Datum>) -> (all: bool)
    ensures
        all == row_all_true(row@),
{
    let mut j: usize = 0;
    while j < row.len()
        invariant
            j <= row.len(),
            forall|k: int| 0 <= k < j ==> #[trigger] row@[k] is True,
        decreases row.len() - j,
    {
        match &row[j] {
            Datum::True => {},
            _ => {
                return false;
            },
        }
        j += 1;
    }
    true
}

fn check_rows(rows: &Vec<Vec<Datum>>) -> (all: bool)
    ensures
        all == rows_all_true(rows@),
{
    let mut i: usize = 0;
    while i < rows.len()
        invariant
            i <= rows.len(),
            forall|k: int| 0 <= k < i ==> row_all_true(#[trigger] rows@[k]@),
        decreases rows.len() - i,
    {
        if !check_row(&rows[i]) {
            return false;
        }
        i += 1;
    }
    true
}

fn check_answer(answer: &PeekResult) -> (failure: Option<WaitFailure>)
    ensures
        failure == failure_of(*answer),
{
    match answer {
        PeekResult::Rows(rows) => if check_rows(rows) {
            None
        } else {
            Some(WaitFailure::DatumNotTrue)
        },
        PeekResult::Error(message) => Some(WaitFailure::PeekError(message.clone())),
        PeekResult::Canceled => Some(WaitFailure::PeekCanceled),
    }
}

/// Checks one attempt: the error with which its batch ended, or the
/// resolved outcomes of its statements.
///
/// A batch that did not run to its end fails the attempt. A statement that
/// did not stream rows is a violation, whatever the others did. Else the
/// attempt fails with the reason of the last answer that is an error, was
/// canceled or holds a datum other than true, and passes where there is no
/// such answer.
pub fn check_all_true(attempt: &Result<Vec<Resolved>, String>) -> (verdict: WaitVerdict)
    ensures
        verdict == verdict_of(*attempt),
{
    let results = match attempt {
        Err(message) => {
            return WaitVerdict::Failed(WaitFailure::Execution(message.clone()));
        },
        Ok(results) => results,
    };
    let mut failed: Option<WaitFailure> = None;
    let mut i: usize = 0;
    proof {
        assert(results@.take(0) =~= Seq::<Resolved>::empty());
    }
    while i < results.len()
        invariant
            i <= results.len(),
            *attempt == Ok::<Vec<Resolved>, String>(*results),
            !some_not_rows(results@.take(i as int)),
            failed == last_failure(results@.take(i as int)),
        decreases results.len() - i,
    {
        proof {
            assert(results@.take(i + 1).drop_last() == results@.take(i as int));
            assert(results@.take(i + 1).last() == results[i as int]);
        }
        match &results[i] {
            Resolved::NotRows => {
                assert(results@[i as int] is NotRows);
                return WaitVerdict::ProtocolViolation;
            },
            Resolved::Rows(answer) => {
                match check_answer(answer) {
                    Some(failure) => {
                        failed = Some(failure);
                    },
                    None => {},
                }
            },
        }
        proof {
            if some_not_rows(results@.take(i + 1)) {
                let k = choose|k: int|
                    0 <= k < i + 1 && #[trigger] results@.take(i + 1)[k] is NotRows;
                if k < i {
                    assert(results@.take(i as int)[k] is NotRows);
                }
            }
        }
        i += 1;
    }
    proof {
        assert(results@.take(results@.len() as int) == results@);
    }
    match failed {
        Some(failure) => WaitVerdict::Failed(failure),
        None => WaitVerdict::AllTrue,
    }
}

/// Decides what follows an attempt, given the time spent since the loop
/// began, and moves the clock by one before a new attempt.
///
/// The wait is over when the attempt passed. A violation ends it at once.
/// A failed attempt is repeated unless the time spent is over the limit;
/// then the wait ends with the reason of that failure.
pub fn wait_sql_step(
    clock: &mut LogicalClock,
    verdict: WaitVerdict,
    elapsed_secs: u64,
    elapsed_subsec_nanos: u32,
) -> (next: Result<WaitStep, WaitError>)
    requires
        wait_next(verdict, elapsed_secs, elapsed_subsec_nanos) == Ok::<WaitStep, WaitError>(
            WaitStep::Retry,
        ) ==> old(clock)@ < u64::MAX,
    ensures
        next == wait_next(verdict, elapsed_secs, elapsed_subsec_nanos),
        final(clock)@ == old(clock)@ + if next == Ok::<WaitStep, WaitError>(WaitStep::Retry) {
            1nat
        } else {
            0nat
        },
{
    match verdict {
        WaitVerdict::AllTrue => Ok(WaitStep::Done),
        WaitVerdict::ProtocolViolation => Err(WaitError::ProtocolViolation),
        WaitVerdict::Failed(failure) => {
            if is_timed_out(elapsed_secs, elapsed_subsec_nanos) {
                Err(WaitError::Timeout(failure))
            } else {
                clock.advance(1);
                Ok(WaitStep::Retry)
            }
        },
    }
}

/// The ids that the given paths resolve to, where every path resolves.
pub open spec fn resolved_ids(
    databases: Seq<crate::catalog::Database>,
    paths: Seq<Seq<char>>,
) -> Set<
    ObjectId,
> {
    Set::new(
        |id: ObjectId|
            exists|i: int|
                0 <= i < paths.len() && #[trigger] resolve(databases, paths[i]) == Ok::<
                    ObjectId,
                    CatalogMiss,
                >(id),
    )
}

/// The first of the given paths that does not resolve.
pub open spec fn first_unresolved(
    databases: Seq<crate::catalog::Database>,
    paths: Seq<Seq<char>>,
) -> Option<int>
    decreases paths.len(),
{
    if paths.len() == 0 {
        None
    } else {
        match first_unresolved(databases, paths.drop_last()) {
            Some(i) => Some(i),
            None => if resolve(databases, paths.last()) is Err {
                Some(paths.len() - 1)
            } else {
                None
            },
        }
    }
}

/// Resolves the paths of the objects whose progress a wait hides.
///
/// Where every path resolves, the result holds the ids of them all. Else
/// the first path that does not resolve gives the error.
pub fn resolve_excluded(catalog: &Catalog, paths: &Vec<String>) -> (hidden: Result<
    HashSet<ObjectId>,
    CatalogError,
>)
    ensures
        match hidden {
            Ok(ids) => first_unresolved(catalog.databases@, texts(paths@)) is None && ids@
                == resolved_ids(catalog.databases@, texts(paths@)),
            Err(e) => first_unresolved(catalog.databases@, texts(paths@)) matches Some(i)
                && resolve(catalog.databases@, texts(paths@)[i]) == Err::<ObjectId, CatalogMiss>(
                e@,
            ),
        },
{
    broadcast use vstd::std_specs::hash::group_hash_axioms;

    let ghost all = texts(paths@);
    let ghost databases = catalog.databases@;
    let mut ids: HashSet<ObjectId> = HashSet::new();
    let mut i: usize = 0;
    proof {
        assert(all.take(0) =~= Seq::<Seq<char>>::empty());
        assert(ids@ =~= resolved_ids(databases, all.take(0)));
    }
    while i < paths.len()
        invariant
            i <= paths.len(),
            all == texts(paths@),
            databases == catalog.databases@,
            first_unresolved(databases, all.take(i as int)) is None,
            ids@ == resolved_ids(databases, all.take(i as int)),
        decreases paths.len() - i,
    {
        proof {
            assert(all.take(i + 1).drop_last() == all.take(i as int));
            assert(all.take(i + 1).last() == paths[i as int]@);
        }
        match catalog.get(paths[i].as_str()) {
            Ok(id) => {
                proof {
                    let before = all.take(i as int);
                    let upto = all.take(i + 1);
                    assert forall|x: ObjectId|
                        resolved_ids(databases, upto).contains(x) <==> (resolved_ids(
                            databases,
                            before,
                        ).contains(x) || x == id) by {
                        if resolved_ids(databases, upto).contains(x) {
                            let k = choose|k: int|
                                0 <= k < upto.len() && #[trigger] resolve(databases, upto[k])
                                    == Ok::<ObjectId, CatalogMiss>(x);
                            if k < i {
                                assert(before[k] == upto[k]);
                            }
                        }
                        if resolved_ids(databases, before).contains(x) {
                            let k = choose|k: int|
                                0 <= k < before.len() && #[trigger] resolve(databases, before[k])
                                    == Ok::<ObjectId, CatalogMiss>(x);
                            assert(before[k] == upto[k]);
                        }
                        if x == id {
                            assert(resolve(databases, upto[i as int]) == Ok::<
                                ObjectId,
                                CatalogMiss,
                            >(x));
                        }
                    }
                    assert(ids@.insert(id) =~= resolved_ids(databases, upto));
                }
                ids.insert(id);
            },
            Err(e) => {
                proof {
                    lemma_unresolved_stays(databases, all, i + 1);
                }
                return Err(e);
            },
        }
        i += 1;
    }
    proof {
        assert(all.take(all.len() as int) == all);
    }
    Ok(ids)
}

/// The first path that does not resolve stays the first when more paths
/// follow.
proof fn lemma_unresolved_stays(
    databases: Seq<crate::catalog::Database>,
    paths: Seq<Seq<char>>,
    n: int,
)
    requires
        0 <= n <= paths.len(),
        first_unresolved(databases, paths.take(n)) is Some,
    ensures
        first_unresolved(databases, paths) == first_unresolved(databases, paths.take(n)),
    decreases paths.len(),
{
    if n == paths.len() {
        assert(paths.take(n) == paths);
    } else {
        assert(paths.drop_last().take(n) == paths.take(n));
        lemma_unresolved_stays(databases, paths.drop_last(), n);
    }
}

} // verus!
