//! The state of the harness between directives.

use crate::batch::batch_in_order;
use crate::clock::LogicalClock;
use crate::directive::{
    directive_of, placeholder, read_directive, rewrite_query, Argument, Directive, DirectiveError,
    DirectiveView,
};
use crate::feedback::{MessageView, ObjectId, Timestamp};
use crate::protocol::{Phase, PhaseView};
use crate::queue::PendingQueue;
use crate::session::{SessionManager, Sessions};
use crate::text::replaced;
use crate::uppers::UpperTracker;
use vstd::prelude::*;

verus! {

/// What the harness keeps from one directive to the next: the feedback that
/// it holds back, the uppers that it has injected, the logical clock, the
/// named sessions, and the directory of its fixture files; and, while a
/// directive is in work, what that directive waits for. `P` is the answer
/// to a peek as the workers give it.
pub struct CoordTest<P> {
    /// The intercepted feedback that is not yet delivered.
    pub queued_feedback: PendingQueue<P>,
    /// The last upper injected for each object.
    pub uppers: UpperTracker,
    /// The time that the coordinator reads as now.
    pub timestamp: LogicalClock,
    /// The sessions stored under a name, and their outcomes.
    pub sessions: SessionManager,
    /// The path of the directory of fixture files.
    pub temp_dir: String,
    /// What the directive in work waits for.
    pub phase: Phase,
}

/// The mathematical content of a [`CoordTest`].
pub struct HarnessView<P> {
    pub queue: Seq<MessageView<P>>,
    pub uppers: Map<ObjectId, Timestamp>,
    pub clock: nat,
    pub sessions: Sessions,
    pub temp_dir: Seq<char>,
    pub phase: PhaseView,
}

impl<P> View for CoordTest<P> {
    type V = HarnessView<P>;

    open spec fn view(&self) -> HarnessView<P> {
        HarnessView {
            queue: self.queued_feedback@,
            uppers: self.uppers@,
            clock: self.timestamp@,
            sessions: self.sessions@,
            temp_dir: self.temp_dir@,
            phase: self.phase@,
        }
    }
}

impl<P> CoordTest<P> {
    /// Whether the state is in order.
    pub open spec fn well_formed(&self) -> bool {
        &&& self.sessions.well_formed()
        &&& self.phase matches Phase::RunBatch { batch, .. } ==> batch_in_order(batch@)
    }

    /// The state at the start of a script: nothing queued, no upper
    /// injected, the clock at zero, no session stored, no directive in
    /// work.
    pub fn new(temp_dir: String) -> (harness: Self)
        ensures
            harness.well_formed(),
            harness@ == (HarnessView::<P> {
                queue: Seq::empty(),
                uppers: Map::empty(),
                clock: 0,
                sessions: Sessions { persisted: Map::empty(), deferred: Map::empty() },
                temp_dir: temp_dir@,
                phase: PhaseView::Idle,
            }),
    {
        CoordTest {
            queued_feedback: PendingQueue::new(),
            uppers: UpperTracker::new(),
            timestamp: LogicalClock::new(),
            sessions: SessionManager::new(),
            temp_dir,
            phase: Phase::Idle,
        }
    }

    /// Puts the directory of fixture files in the place of each
    /// placeholder of a body of statements.
    pub fn rewrite_query(&self, query: &str) -> (rewritten: String)
        ensures
            rewritten@ == replaced(query@, placeholder(), self.temp_dir@),
    {
        rewrite_query(query, self.temp_dir.as_str())
    }

    /// Reads a record of the script as a directive.
    ///
    /// The record is a directive exactly where its name is the name of a
    /// directive and it carries what that directive requires; a body of
    /// statements comes back with its placeholders filled in.
    pub fn read_directive(&self, name: &str, args: &Vec<Argument>, body: &str) -> (read: Result<
        Directive,
        DirectiveError,
    >)
        ensures
            match read {
                Ok(directive) => directive_of(name@, args@, body@, self.temp_dir@) == Ok::<
                    DirectiveView,
                    DirectiveError,
                >(directive@),
                Err(e) => directive_of(name@, args@, body@, self.temp_dir@) == Err::<
                    DirectiveView,
                    DirectiveError,
                >(e),
            },
    {
        read_directive(name, args, body, self.temp_dir.as_str())
    }
}

} // verus!
