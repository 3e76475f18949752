//! The last upper that the harness has injected for each object, and the
//! directive that injects new ones.
//!
//! An injected upper stands for an event from outside: it goes straight to
//! the coordinator and never through the queue of intercepted feedback.

use crate::catalog::{resolve, Catalog, CatalogError, CatalogMiss, Database};
use crate::feedback::{
    batch_new_from, batch_update, batch_updates, ObjectId, Timestamp, UpperEntry,
};
use crate::text::{
    chars_of, decimal_u64, lemma_split_on_len, parse_u64, pieces, split, split_on,
    split_whitespace, string_of, words,
};
use std::collections::HashMap;
use vstd::prelude::*;

verus! {

/// The worker in whose name injected progress is reported.
pub const INJECTING_WORKER: usize = 0;

/// Why an upper is not taken.
#[derive(Clone, Debug, PartialEq, Eq)]
pub enum UpperError {
    /// A line is not a path followed by a number and nothing else.
    MalformedLine,
    /// The path of a line does not resolve.
    Unresolved(CatalogError),
    /// What follows the path is not a timestamp.
    BadTimestamp,
    /// The timestamp is at most 1: it could not advance what is visible,
    /// since readers look at the upper less one.
    TooSmall(Timestamp),
    /// The timestamp lies before the upper recorded for the object.
    NotMonotonic { current: Timestamp, given: Timestamp },
}

/// The mathematical content of an [`UpperError`].
pub enum UpperFailure {
    MalformedLine,
    Unresolved(CatalogMiss),
    BadTimestamp,
    TooSmall(Timestamp),
    NotMonotonic { current: Timestamp, given: Timestamp },
}

impl View for UpperError {
    type V = UpperFailure;

    open spec fn view(&self) -> UpperFailure {
        match *self {
            UpperError::MalformedLine => UpperFailure::MalformedLine,
            UpperError::Unresolved(e) => UpperFailure::Unresolved(e@),
            UpperError::BadTimestamp => UpperFailure::BadTimestamp,
            UpperError::TooSmall(given) => UpperFailure::TooSmall(given),
            UpperError::NotMonotonic { current, given } => UpperFailure::NotMonotonic {
                current,
                given,
            },
        }
    }
}

/// One step of an object's upper: the object, its upper before and after.
pub struct UpperChange {
    pub id: ObjectId,
    pub from: Timestamp,
    pub to: Timestamp,
}

/// The upper recorded for an object; zero where none is.
pub open spec fn upper_of(uppers: Map<ObjectId, Timestamp>, id: ObjectId) -> Timestamp {
    if uppers.contains_key(id) {
        uppers[id]
    } else {
        0
    }
}

/// The lines of a text: its pieces between line feeds. A last line that is
/// not closed by a line feed counts unless it is empty. A carriage return
/// before a line feed stays with its line, where it is white space.
pub open spec fn lines_of(body: Seq<char>) -> Seq<Seq<char>> {
    let parts = split_on(body, '\n');
    if parts.last().len() == 0 {
        parts.drop_last()
    } else {
        parts
    }
}

/// What one line asks for: the object that its path names and the
/// timestamp that follows.
pub open spec fn upper_line(databases: Seq<Database>, line: Seq<char>) -> Result<
    (ObjectId, Timestamp),
    UpperFailure,
> {
    let w = words(line);
    if w.len() == 0 {
        Err(UpperFailure::MalformedLine)
    } else {
        match resolve(databases, w[0]) {
            Err(miss) => Err(UpperFailure::Unresolved(miss)),
            Ok(id) => if w.len() < 2 {
                Err(UpperFailure::MalformedLine)
            } else {
                match decimal_u64(w[1]) {
                    None => Err(UpperFailure::BadTimestamp),
                    Some(ts) => if w.len() > 2 {
                        Err(UpperFailure::MalformedLine)
                    } else {
                        Ok((id, ts))
                    },
                }
            },
        }
    }
}

/// Whether an object's upper may move to `ts`, and why not.
pub open spec fn upper_step(
    uppers: Map<ObjectId, Timestamp>,
    id: ObjectId,
    ts: Timestamp,
) -> Result<
    UpperChange,
    UpperFailure,
> {
    if ts <= 1 {
        Err(UpperFailure::TooSmall(ts))
    } else if ts < upper_of(uppers, id) {
        Err(UpperFailure::NotMonotonic { current: upper_of(uppers, id), given: ts })
    } else {
        Ok(UpperChange { id, from: upper_of(uppers, id), to: ts })
    }
}

/// The uppers after the given lines were applied in order, and the changes
/// made; or, with the first line that is not taken, the reason, and the
/// uppers as the lines before it left them.
pub open spec fn apply_uppers(
    start: Map<ObjectId, Timestamp>,
    databases: Seq<Database>,
    lines: Seq<Seq<char>>,
) -> (Map<ObjectId, Timestamp>, Result<Seq<UpperChange>, UpperFailure>)
    decreases lines.len(),
{
    if lines.len() == 0 {
        (start, Ok(Seq::empty()))
    } else {
        let (uppers, done) = apply_uppers(start, databases, lines.drop_last());
        match done {
            Err(e) => (uppers, Err(e)),
            Ok(changes) => match upper_line(databases, lines.last()) {
                Err(e) => (uppers, Err(e)),
                Ok((id, ts)) => match upper_step(uppers, id, ts) {
                    Err(e) => (uppers, Err(e)),
                    Ok(change) => (uppers.insert(id, ts), Ok(changes.push(change))),
                },
            },
        }
    }
}

/// Whether the entries of a progress report carry the given changes: for
/// each change, in order, the retraction of the old upper and the addition
/// of the new one.
pub open spec fn carries(entries: Seq<UpperEntry>, changes: Seq<UpperChange>) -> bool {
    &&& entries.len() == changes.len()
    &&& forall|k: int|
        0 <= k < entries.len() ==> (#[trigger] entries[k]).0 == changes[k].id && batch_updates(
            entries[k].1,
        ) == seq![(changes[k].from, -1i64), (changes[k].to, 1i64)]
}

/// Applying lines never lowers the upper of any object, whether all lines
/// are taken or not.
pub proof fn lemma_uppers_never_fall(
    start: Map<ObjectId, Timestamp>,
    databases: Seq<Database>,
    lines: Seq<Seq<char>>,
    id: ObjectId,
)
    ensures
        upper_of(apply_uppers(start, databases, lines).0, id) >= upper_of(start, id),
    decreases lines.len(),
{
    if lines.len() > 0 {
        lemma_uppers_never_fall(start, databases, lines.drop_last(), id);
    }
}

/// One `update-upper` directive: the snapshot of the catalog that its paths
/// are resolved against, and its body.
pub struct UpperUpdate {
    pub databases: Seq<Database>,
    pub body: Seq<char>,
}

/// The uppers after a sequence of `update-upper` directives, whether each
/// was taken whole or ended at a line.
pub open spec fn apply_updates(start: Map<ObjectId, Timestamp>, updates: Seq<UpperUpdate>) -> Map<
    ObjectId,
    Timestamp,
>
    decreases updates.len(),
{
    if updates.len() == 0 {
        start
    } else {
        apply_uppers(
            apply_updates(start, updates.drop_last()),
            updates.last().databases,
            lines_of(updates.last().body),
        ).0
    }
}

/// Over any sequence of `update-upper` directives, the upper of no object
/// ever falls.
pub proof fn lemma_updates_never_fall(
    start: Map<ObjectId, Timestamp>,
    updates: Seq<UpperUpdate>,
    id: ObjectId,
)
    ensures
        upper_of(apply_updates(start, updates), id) >= upper_of(start, id),
        forall|n: int|
            0 <= n <= updates.len() ==> upper_of(apply_updates(start, updates), id) >= upper_of(
                #[trigger] apply_updates(start, updates.take(n)),
                id,
            ),
    decreases updates.len(),
{
    if updates.len() > 0 {
        let front = updates.drop_last();
        lemma_updates_never_fall(start, front, id);
        lemma_uppers_never_fall(
            apply_updates(start, front),
            updates.last().databases,
            lines_of(updates.last().body),
            id,
        );
        assert forall|n: int| 0 <= n <= updates.len() implies upper_of(
            apply_updates(start, updates),
            id,
        ) >= upper_of(#[trigger] apply_updates(start, updates.take(n)), id) by {
            if n == updates.len() {
                assert(updates.take(n) == updates);
            } else {
                assert(updates.take(n) == front.take(n));
            }
        }
    } else {
        assert forall|n: int| 0 <= n <= updates.len() implies upper_of(
            apply_updates(start, updates),
            id,
        ) >= upper_of(#[trigger] apply_updates(start, updates.take(n)), id) by {
            assert(updates.take(n) == updates);
        }
    }
}

/// A timestamp of at most 1 is never applied: a line that carries one ends
/// the directive, and the uppers stay as the lines before it left them.
pub proof fn lemma_small_timestamp_rejected(
    uppers: Map<ObjectId, Timestamp>,
    id: ObjectId,
    ts: Timestamp,
)
    requires
        ts <= 1,
    ensures
        upper_step(uppers, id, ts) == Err::<UpperChange, UpperFailure>(UpperFailure::TooSmall(ts)),
{
}

/// Every change that applying lines makes ends above 1 and not below where
/// it starts.
pub proof fn lemma_changes_rise(
    start: Map<ObjectId, Timestamp>,
    databases: Seq<Database>,
    lines: Seq<Seq<char>>,
)
    ensures
        apply_uppers(start, databases, lines).1 matches Ok(changes) ==> changes.len()
            == lines.len() && forall|k: int|
            0 <= k < changes.len() ==> 1 < (#[trigger] changes[k]).to && changes[k].from
                <= changes[k].to,
    decreases lines.len(),
{
    if lines.len() > 0 {
        lemma_changes_rise(start, databases, lines.drop_last());
    }
}

/// Once a line is not taken, the lines after it change nothing.
proof fn lemma_apply_stops(
    start: Map<ObjectId, Timestamp>,
    databases: Seq<Database>,
    lines: Seq<Seq<char>>,
    n: int,
)
    requires
        0 <= n <= lines.len(),
        apply_uppers(start, databases, lines.take(n)).1 is Err,
    ensures
        apply_uppers(start, databases, lines) == apply_uppers(start, databases, lines.take(n)),
    decreases lines.len(),
{
    if n == lines.len() {
        assert(lines.take(n) == lines);
    } else {
        assert(lines.drop_last().take(n) == lines.take(n));
        lemma_apply_stops(start, databases, lines.drop_last(), n);
    }
}

/// For each object, the last upper injected for it.
pub struct UpperTracker {
    uppers: HashMap<ObjectId, Timestamp>,
}

impl UpperTracker {
    /// The recorded uppers, by object.
    pub closed spec fn view(&self) -> Map<ObjectId, Timestamp> {
        self.uppers@
    }

    /// A tracker that has recorded nothing.
    pub fn new() -> (tracker: Self)
        ensures
            tracker@ == Map::<ObjectId, Timestamp>::empty(),
    {
        UpperTracker { uppers: HashMap::new() }
    }

    /// The upper recorded for `id`; zero where none is.
    pub fn get(&self, id: ObjectId) -> (upper: Timestamp)
        ensures
            upper == upper_of(self@, id),
    {
        broadcast use vstd::std_specs::hash::group_hash_axioms;

        match self.uppers.get(&id) {
            Some(upper) => *upper,
            None => 0,
        }
    }

    /// Moves the upper of `id` to `ts` and gives the change to report: the
    /// retraction of the old upper and the addition of the new one.
    ///
    /// A timestamp of at most 1 is refused, and so is one below the upper
    /// recorded for `id`; the tracker then stays as it is.
    pub fn advance(&mut self, id: ObjectId, ts: Timestamp) -> (change: Result<
        UpperEntry,
        UpperError,
    >)
        ensures
            match change {
                Ok(entry) => {
                    &&& upper_step(old(self)@, id, ts) is Ok
                    &&& final(self)@ == old(self)@.insert(id, ts)
                    &&& entry.0 == id
                    &&& batch_updates(entry.1) == seq![
                        (upper_of(old(self)@, id), -1i64),
                        (ts, 1i64),
                    ]
                },
                Err(e) => {
                    &&& upper_step(old(self)@, id, ts) == Err::<UpperChange, UpperFailure>(e@)
                    &&& final(self)@ == old(self)@
                },
            },
            ts <= 1 ==> change is Err,
            upper_of(final(self)@, id) >= upper_of(old(self)@, id),
            forall|other: ObjectId|
                other != id ==> upper_of(final(self)@, other) == upper_of(old(self)@, other),
    {
        broadcast use vstd::std_specs::hash::group_hash_axioms;

        if ts <= 1 {
            return Err(UpperError::TooSmall(ts));
        }
        let current = self.get(id);
        if ts < current {
            return Err(UpperError::NotMonotonic { current, given: ts });
        }
        let mut batch = batch_new_from(current, -1);
        batch_update(&mut batch, ts, 1);
        self.uppers.insert(id, ts);
        Ok((id, batch))
    }

    /// Applies the lines of an `update-upper` directive, each a path and a
    /// timestamp, and gives the entries of the one progress report to
    /// inject.
    ///
    /// The lines are applied in order. The first line that is not taken
    /// ends the directive with its reason: nothing is injected then, and the
    /// tracker keeps what the lines before it recorded.
    pub fn update_upper(&mut self, catalog: &Catalog, body: &str) -> (injected: Result<
        Vec<UpperEntry>,
        UpperError,
    >)
        ensures
            final(self)@ == apply_uppers(old(self)@, catalog.databases@, lines_of(body@)).0,
            match injected {
                Ok(entries) => {
                    &&& apply_uppers(
                        old(self)@,
                        catalog.databases@,
                        lines_of(body@),
                    ).1 matches Ok(changes)
                    &&& carries(entries@, changes)
                },
                Err(e) => apply_uppers(old(self)@, catalog.databases@, lines_of(body@)).1 == Err::<
                    Seq<UpperChange>,
                    UpperFailure,
                >(e@),
            },
            forall|id: ObjectId| upper_of(final(self)@, id) >= upper_of(old(self)@, id),
    {
        let text = chars_of(body);
        let mut lines = split(&text, '\n');
        proof {
            lemma_split_on_len(body@, '\n');
            assert(pieces(lines@).last() == lines@.last()@);
        }
        if lines[lines.len() - 1].len() == 0 {
            proof {
                assert(pieces(lines@).drop_last() =~= pieces(lines@.drop_last()));
            }
            lines.pop();
        }
        let ghost all = pieces(lines@);
        let ghost start = self@;
        let ghost databases = catalog.databases@;
        assert(all == lines_of(body@));
        let mut entries: Vec<UpperEntry> = Vec::new();
        let ghost mut changes: Seq<UpperChange> = Seq::empty();
        let mut i: usize = 0;
        proof {
            assert(all.take(0) =~= Seq::<Seq<char>>::empty());
        }
        while i < lines.len()
            invariant
                i <= lines.len(),
                all == pieces(lines@),
                all == lines_of(body@),
                start == old(self)@,
                databases == catalog.databases@,
                apply_uppers(start, databases, all.take(i as int)) == (
                    self@,
                    Ok::<Seq<UpperChange>, UpperFailure>(changes),
                ),
                carries(entries@, changes),
            decreases lines.len() - i,
        {
            proof {
                assert(all.take(i + 1).drop_last() == all.take(i as int));
                assert(all.take(i + 1).last() == lines[i as int]@);
            }
            let ghost before = self@;
            match read_upper_line(catalog, &lines[i]) {
                Err(e) => {
                    proof {
                        lemma_apply_stops(start, databases, all, i + 1);
                        lemma_all_never_fall(start, databases, all);
                    }
                    return Err(e);
                },
                Ok((id, ts)) => match self.advance(id, ts) {
                    Err(e) => {
                        proof {
                            lemma_apply_stops(start, databases, all, i + 1);
                            lemma_all_never_fall(start, databases, all);
                        }
                        return Err(e);
                    },
                    Ok(entry) => {
                        proof {
                            changes = changes.push(
                                UpperChange { id, from: upper_of(before, id), to: ts },
                            );
                        }
                        entries.push(entry);
                    },
                },
            }
            i += 1;
        }
        proof {
            assert(all.take(all.len() as int) == all);
            lemma_all_never_fall(start, databases, all);
        }
        Ok(entries)
    }
}

proof fn lemma_all_never_fall(
    start: Map<ObjectId, Timestamp>,
    databases: Seq<Database>,
    lines: Seq<Seq<char>>,
)
    ensures
        forall|id: ObjectId|
            upper_of(#[trigger] apply_uppers(start, databases, lines).0, id) >= upper_of(start, id),
{
    assert forall|id: ObjectId|
        upper_of(#[trigger] apply_uppers(start, databases, lines).0, id) >= upper_of(
            start,
            id,
        ) by {
        lemma_uppers_never_fall(start, databases, lines, id);
    }
}

/// Reads one line of an `update-upper` directive.
fn read_upper_line(catalog: &Catalog, line: &Vec<char>) -> (parsed: Result<
    (ObjectId, Timestamp),
    UpperError,
>)
    ensures
        match parsed {
            Ok(pair) => upper_line(catalog.databases@, line@) == Ok::<
                (ObjectId, Timestamp),
                UpperFailure,
            >(pair),
            Err(e) => upper_line(catalog.databases@, line@) == Err::<
                (ObjectId, Timestamp),
                UpperFailure,
            >(e@),
        },
{
    let w = split_whitespace(line);
    assert(pieces(w@).len() == w@.len());
    if w.len() == 0 {
        return Err(UpperError::MalformedLine);
    }
    assert(pieces(w@)[0] == w[0]@);
    let path = string_of(&w[0]);
    let id = match catalog.get(path.as_str()) {
        Ok(id) => id,
        Err(e) => {
            return Err(UpperError::Unresolved(e));
        },
    };
    if w.len() < 2 {
        return Err(UpperError::MalformedLine);
    }
    assert(pieces(w@)[1] == w[1]@);
    let ts = match parse_u64(&w[1]) {
        Some(ts) => ts,
        None => {
            return Err(UpperError::BadTimestamp);
        },
    };
    if w.len() > 2 {
        return Err(UpperError::MalformedLine);
    }
    Ok((id, ts))
}

} // verus!
