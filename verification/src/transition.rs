//! The transitions of the interpreter of directives: for each phase of a
//! directive and each event, the state that follows and the action that
//! the driver is asked for.

use crate::batch::{batch_begin, batch_next, BatchError, BatchStep, Outcome};
use crate::catalog::{resolve, Database};
use crate::directive::{directive_of, Argument, DirectiveError, DirectiveView, Violation};
use crate::feedback::{is_not_peek_response, is_peek_response, views};
use crate::future::Polled;
use crate::harness::HarnessView;
use crate::protocol::{
    change_updates, ActionView, CheckJobView, Event, FatalView, PeekJobView, PhaseView,
    RenderJobView, Resolution, RunGoalView, SnapshotGoalView, WaitJobView,
};
use crate::queue::{released_excluding, withheld_excluding};
use crate::session::{awaited, cancel_target, deferred, persisted, Session};
use crate::text::lines_joined;
use crate::uppers::{apply_uppers, lines_of, INJECTING_WORKER};
use crate::wait::{
    first_unresolved, resolved_ids, results_verdict, timed_out, Resolved, WaitFailure, WaitVerdict,
};
use vstd::prelude::*;

verus! {

/// The run ends for the given reason.
pub open spec fn halted<P>(
    pre: HarnessView<P>,
    fatal: FatalView,
) -> (HarnessView<P>, ActionView<P>) {
    (HarnessView { phase: PhaseView::Halted, ..pre }, ActionView::Fail { fatal })
}

/// The directive is done, with the given output.
pub open spec fn finished<P>(
    pre: HarnessView<P>,
    output: Seq<char>,
) -> (HarnessView<P>, ActionView<P>) {
    (HarnessView { phase: PhaseView::Idle, ..pre }, ActionView::Finish { output })
}

/// The directive goes on: it asks for `action` and waits in `phase`.
pub open spec fn moved<P>(pre: HarnessView<P>, phase: PhaseView, action: ActionView<P>) -> (
    HarnessView<P>,
    ActionView<P>,
) {
    (HarnessView { phase, ..pre }, action)
}

/// The driver handed in an event that answers no action in work.
pub open spec fn unexpected<P>(pre: HarnessView<P>) -> (HarnessView<P>, ActionView<P>) {
    halted(pre, FatalView::ProtocolViolation(Violation::UnexpectedEvent))
}

/// The first outcome from `next` on that streams rows; the number of
/// outcomes where none does.
pub open spec fn next_rows(outcomes: Seq<Outcome>, next: int) -> int
    decreases outcomes.len() - next,
{
    if next < 0 || next >= outcomes.len() {
        outcomes.len() as int
    } else {
        match outcomes[next] {
            Outcome::Response(_) => next_rows(outcomes, next + 1),
            Outcome::SendingRows(_) => next,
        }
    }
}

/// The texts of the outcomes from `next` up to the first that streams
/// rows.
pub open spec fn ready_renderings(outcomes: Seq<Outcome>, next: int) -> Seq<Seq<char>>
    decreases outcomes.len() - next,
{
    if next < 0 || next >= outcomes.len() {
        Seq::empty()
    } else {
        match outcomes[next] {
            Outcome::Response(text) => seq![text@] + ready_renderings(outcomes, next + 1),
            Outcome::SendingRows(_) => Seq::empty(),
        }
    }
}

/// Showing outcomes: those that need no rows are shown at once; the first
/// that streams rows has its rows polled. When all are shown, the session
/// to close is closed, and the directive finishes with the texts, each on
/// lines of its own.
pub open spec fn render_of<P>(
    pre: HarnessView<P>,
    job: RenderJobView,
) -> (HarnessView<P>, ActionView<P>) {
    let stop = next_rows(job.outcomes, job.next);
    let rendered = job.rendered + ready_renderings(job.outcomes, job.next);
    if stop < job.outcomes.len() {
        match job.outcomes[stop] {
            Outcome::SendingRows(ticket) => moved(
                pre,
                PhaseView::Polling {
                    job: PeekJobView::Render(RenderJobView { next: stop, rendered, ..job }),
                },
                ActionView::Poll { ticket },
            ),
            Outcome::Response(_) => unexpected(pre),
        }
    } else {
        match job.closing {
            Some(session) => moved(
                pre,
                PhaseView::RenderClosing { rendered },
                ActionView::Terminate { session },
            ),
            None => finished(pre, lines_joined(rendered)),
        }
    }
}

/// Checking the outcomes of an attempt of a wait, in order: an outcome
/// that streams rows has its rows polled, any other ends the run. When all
/// are resolved, the attempt has passed and the directive finishes, or it
/// has failed and the time is read.
pub open spec fn check_of<P>(
    pre: HarnessView<P>,
    job: CheckJobView,
) -> (HarnessView<P>, ActionView<P>) {
    if job.next < 0 || job.next >= job.outcomes.len() {
        match results_verdict(job.resolved) {
            WaitVerdict::AllTrue => finished(pre, Seq::empty()),
            WaitVerdict::Failed(failure) => moved(
                pre,
                PhaseView::WaitTiming { job: job.wait, failure },
                ActionView::ReadTimer,
            ),
            WaitVerdict::ProtocolViolation => halted(
                pre,
                FatalView::ProtocolViolation(Violation::ExpectedRows),
            ),
        }
    } else {
        match job.outcomes[job.next] {
            Outcome::SendingRows(ticket) => moved(
                pre,
                PhaseView::Polling { job: PeekJobView::Check(job) },
                ActionView::Poll { ticket },
            ),
            Outcome::Response(_) => halted(
                pre,
                FatalView::ProtocolViolation(Violation::ExpectedRows),
            ),
        }
    }
}

/// An attempt of a wait begins: with taking what has arrived.
pub open spec fn attempt_of<P>(
    pre: HarnessView<P>,
    job: WaitJobView,
) -> (HarnessView<P>, ActionView<P>) {
    moved(pre, PhaseView::WaitReceiving { job }, ActionView::Receive)
}

/// The end of the run that the error of a batch brings.
pub open spec fn batch_fatal(e: BatchError) -> FatalView {
    match e {
        BatchError::ParseError(message) => FatalView::ParseError(message),
        BatchError::ExecutionError(message) => FatalView::ExecutionError(message),
        BatchError::UnexpectedReply => FatalView::ProtocolViolation(Violation::UnexpectedEvent),
    }
}

/// A directive begins.
///
/// A directive that runs statements opens a session. One that needs the
/// catalog takes a snapshot first. `async-cancel` looks up its session, and
/// `await-sql` takes its session and outcomes out of the store, before
/// anything is asked of the driver. `inc-timestamp` moves the clock and is
/// done.
pub open spec fn begin_of<P>(
    pre: HarnessView<P>,
    directive: DirectiveView,
) -> (HarnessView<P>, ActionView<P>) {
    match directive {
        DirectiveView::Sql { query } => moved(
            pre,
            PhaseView::RunConnecting { query, goal: RunGoalView::Sql },
            ActionView::Connect,
        ),
        DirectiveView::WaitSql { exclude_uppers, query } => moved(
            pre,
            PhaseView::SnapshotConnecting {
                goal: SnapshotGoalView::WaitSql { exclude_uppers, query },
            },
            ActionView::Connect,
        ),
        DirectiveView::AsyncSql { session, query } => moved(
            pre,
            PhaseView::RunConnecting { query, goal: RunGoalView::AsyncSql { session } },
            ActionView::Connect,
        ),
        DirectiveView::AsyncCancel { session } => match cancel_target(pre.sessions, session) {
            Ok(target) => moved(
                pre,
                PhaseView::CancelConnecting { target },
                ActionView::Connect,
            ),
            Err(e) => halted(pre, FatalView::NotFound(e)),
        },
        DirectiveView::AwaitSql { session } => {
            let after = HarnessView { sessions: awaited(pre.sessions, session).0, ..pre };
            match awaited(pre.sessions, session).1 {
                Ok((closing, outcomes)) => render_of(
                    after,
                    RenderJobView {
                        outcomes,
                        next: 0,
                        rendered: Seq::empty(),
                        closing: Some(closing),
                    },
                ),
                Err(e) => halted(after, FatalView::NotFound(e)),
            }
        },
        DirectiveView::UpdateUpper { body } => moved(
            pre,
            PhaseView::SnapshotConnecting { goal: SnapshotGoalView::UpdateUpper { body } },
            ActionView::Connect,
        ),
        DirectiveView::IncTimestamp { delta } => if pre.clock + delta <= u64::MAX {
            finished(HarnessView { clock: pre.clock + delta as nat, ..pre }, Seq::empty())
        } else {
            halted(pre, FatalView::ClockOverflow)
        },
        DirectiveView::CreateFile { name, content } => moved(
            pre,
            PhaseView::Writing,
            ActionView::WriteFile { name, content, append: false },
        ),
        DirectiveView::AppendFile { name, content } => moved(
            pre,
            PhaseView::Writing,
            ActionView::WriteFile { name, content, append: true },
        ),
        DirectiveView::PrintCatalog => moved(
            pre,
            PhaseView::SnapshotConnecting { goal: SnapshotGoalView::PrintCatalog },
            ActionView::Connect,
        ),
    }
}

/// The state after a record of the script is taken up, and the first
/// action of its directive.
pub open spec fn start_of<P>(
    pre: HarnessView<P>,
    name: Seq<char>,
    args: Seq<Argument>,
    body: Seq<char>,
) -> (HarnessView<P>, ActionView<P>) {
    if !(pre.phase is Idle) {
        unexpected(pre)
    } else {
        match directive_of(name, args, body, pre.temp_dir) {
            Ok(directive) => begin_of(pre, directive),
            Err(DirectiveError::UnrecognizedDirective) => halted(
                pre,
                FatalView::UnrecognizedDirective,
            ),
            Err(DirectiveError::ProtocolViolation(violation)) => halted(
                pre,
                FatalView::ProtocolViolation(violation),
            ),
        }
    }
}

/// A snapshot is there, and its session closed: the directive that asked
/// for it goes on.
///
/// `wait-sql` resolves the paths of the objects that it hides, notes the
/// time and so comes to its first attempt. `update-upper` applies its
/// lines and injects the changes. `print-catalog` finishes with the text
/// of the snapshot.
pub open spec fn after_snapshot_of<P>(
    pre: HarnessView<P>,
    databases: Seq<Database>,
    rendering: Seq<char>,
    goal: SnapshotGoalView,
) -> (HarnessView<P>, ActionView<P>) {
    match goal {
        SnapshotGoalView::WaitSql { exclude_uppers, query } => match first_unresolved(
            databases,
            exclude_uppers,
        ) {
            None => moved(
                pre,
                PhaseView::WaitTimer {
                    job: WaitJobView { hidden: resolved_ids(databases, exclude_uppers), query },
                },
                ActionView::StartTimer,
            ),
            Some(i) => match resolve(databases, exclude_uppers[i]) {
                Err(miss) => halted(pre, FatalView::UnresolvedPath(miss)),
                Ok(_) => unexpected(pre),
            },
        },
        SnapshotGoalView::UpdateUpper { body } => {
            let applied = apply_uppers(pre.uppers, databases, lines_of(body));
            let after = HarnessView { uppers: applied.0, ..pre };
            match applied.1 {
                Ok(changes) => moved(
                    after,
                    PhaseView::Injecting,
                    ActionView::Inject {
                        worker_id: INJECTING_WORKER,
                        updates: change_updates(changes),
                    },
                ),
                Err(e) => halted(after, FatalView::RejectedUpper(e)),
            }
        },
        SnapshotGoalView::PrintCatalog => finished(pre, rendering.push('\n')),
    }
}

/// A batch has ended, with its outcomes or without.
///
/// A session that the directive is to store is stored now, under its name,
/// and then has its outcomes written; the directive is done. Any other
/// session is closed before the directive looks at how the batch ended.
pub open spec fn run_end_of<P>(
    pre: HarnessView<P>,
    session: Session,
    result: Result<Seq<Outcome>, BatchError>,
    goal: RunGoalView,
) -> (HarnessView<P>, ActionView<P>) {
    match goal {
        RunGoalView::AsyncSql { session: name } => match persisted(pre.sessions, name, session).1 {
            Err(e) => halted(pre, FatalView::NotFound(e)),
            Ok(()) => {
                let stored = HarnessView {
                    sessions: persisted(pre.sessions, name, session).0,
                    ..pre
                };
                match result {
                    Err(e) => halted(stored, batch_fatal(e)),
                    Ok(outcomes) => match deferred(stored.sessions, name, outcomes).1 {
                        Err(e) => halted(stored, FatalView::NotFound(e)),
                        Ok(()) => finished(
                            HarnessView {
                                sessions: deferred(stored.sessions, name, outcomes).0,
                                ..pre
                            },
                            Seq::empty(),
                        ),
                    },
                }
            },
        },
        _ => moved(pre, PhaseView::RunClosing { result, goal }, ActionView::Terminate { session }),
    }
}

/// The session of a batch is closed: the directive looks at how the batch
/// ended.
///
/// `sql` shows the outcomes, and ends the run if there are none. An
/// attempt of a wait checks the outcomes; a batch that did not run to its
/// end fails the attempt.
pub open spec fn after_run_of<P>(
    pre: HarnessView<P>,
    result: Result<Seq<Outcome>, BatchError>,
    goal: RunGoalView,
) -> (HarnessView<P>, ActionView<P>) {
    match goal {
        RunGoalView::Sql => match result {
            Ok(outcomes) => render_of(
                pre,
                RenderJobView { outcomes, next: 0, rendered: Seq::empty(), closing: None },
            ),
            Err(e) => halted(pre, batch_fatal(e)),
        },
        RunGoalView::WaitSql(job) => match result {
            Ok(outcomes) => check_of(
                pre,
                CheckJobView { wait: job, outcomes, next: 0, resolved: Seq::empty() },
            ),
            Err(BatchError::ParseError(message)) => moved(
                pre,
                PhaseView::WaitTiming { job, failure: WaitFailure::Execution(message) },
                ActionView::ReadTimer,
            ),
            Err(BatchError::ExecutionError(message)) => moved(
                pre,
                PhaseView::WaitTiming { job, failure: WaitFailure::Execution(message) },
                ActionView::ReadTimer,
            ),
            Err(BatchError::UnexpectedReply) => unexpected(pre),
        },
        RunGoalView::AsyncSql { .. } => unexpected(pre),
    }
}

/// The rows that a job is waiting for.
pub open spec fn job_ticket(job: PeekJobView) -> Option<u64> {
    let (outcomes, next) = match job {
        PeekJobView::Render(job) => (job.outcomes, job.next),
        PeekJobView::Check(job) => (job.outcomes, job.next),
    };
    if 0 <= next < outcomes.len() {
        match outcomes[next] {
            Outcome::SendingRows(ticket) => Some(ticket),
            Outcome::Response(_) => None,
        }
    } else {
        None
    }
}

/// The rows that a job was waiting for are there: the job goes on with
/// its next outcome.
pub open spec fn resolved_of<P>(pre: HarnessView<P>, job: PeekJobView, resolution: Resolution) -> (
    HarnessView<P>,
    ActionView<P>,
) {
    if job_ticket(job) is None {
        unexpected(pre)
    } else {
        match job {
            PeekJobView::Render(job) => render_of(
                pre,
                RenderJobView {
                    next: job.next + 1,
                    rendered: job.rendered.push(resolution.rendering@),
                    ..job
                },
            ),
            PeekJobView::Check(job) => check_of(
                pre,
                CheckJobView {
                    next: job.next + 1,
                    resolved: job.resolved.push(Resolved::Rows(resolution.result)),
                    ..job
                },
            ),
        }
    }
}

/// The state after an event, and the next action.
///
/// An event that does not answer the action in work ends the run, and so
/// does any event when no directive is in work.
pub open spec fn next_of<P>(
    pre: HarnessView<P>,
    event: Event<P>,
) -> (HarnessView<P>, ActionView<P>) {
    match (pre.phase, event) {
        (PhaseView::SnapshotConnecting { goal }, Event::Connected(session)) => moved(
            pre,
            PhaseView::SnapshotDumping { session, goal },
            ActionView::DumpCatalog { session },
        ),
        (
            PhaseView::SnapshotDumping { session, goal },
            Event::Dumped { catalog, rendering },
        ) => moved(
            pre,
            PhaseView::SnapshotClosing {
                databases: catalog.databases@,
                rendering: rendering@,
                goal,
            },
            ActionView::Terminate { session },
        ),
        (
            PhaseView::SnapshotClosing { databases, rendering, goal },
            Event::Done,
        ) => after_snapshot_of(pre, databases, rendering, goal),
        (PhaseView::WaitTimer { job }, Event::Done) => attempt_of(pre, job),
        (PhaseView::WaitReceiving { job }, Event::Arrived(messages)) => {
            let all = pre.queue + views(messages@);
            (
                HarnessView {
                    queue: withheld_excluding(all, job.hidden),
                    phase: PhaseView::WaitDelivering { job },
                    ..pre
                },
                ActionView::Deliver { messages: released_excluding(all, job.hidden) },
            )
        },
        (PhaseView::WaitDelivering { job }, Event::Done) => moved(
            pre,
            PhaseView::RunConnecting { query: job.query, goal: RunGoalView::WaitSql(job) },
            ActionView::Connect,
        ),
        (
            PhaseView::WaitTiming { job, failure },
            Event::Elapsed { secs, subsec_nanos },
        ) => if timed_out(secs, subsec_nanos) {
            halted(pre, FatalView::Timeout(failure))
        } else if pre.clock >= u64::MAX {
            halted(pre, FatalView::ClockOverflow)
        } else {
            attempt_of(HarnessView { clock: pre.clock + 1nat, ..pre }, job)
        },
        (PhaseView::RunConnecting { query, goal }, Event::Connected(session)) => moved(
            pre,
            PhaseView::RunParsing { session, goal },
            ActionView::Parse { query },
        ),
        (PhaseView::RunParsing { session, goal }, Event::Parsed(parsed)) => match batch_begin(
            parsed,
        ).1 {
            BatchStep::Request(op) => moved(
                pre,
                PhaseView::RunBatch { session, batch: batch_begin(parsed).0, goal },
                ActionView::Batch { session, op },
            ),
            BatchStep::Finished(Ok(outcomes)) => run_end_of(pre, session, Ok(outcomes@), goal),
            BatchStep::Finished(Err(e)) => run_end_of(pre, session, Err(e), goal),
        },
        (PhaseView::RunBatch { session, batch, goal }, Event::Replied(reply)) => match batch_next(
            batch,
            reply,
        ).1 {
            Ok(Some(op)) => moved(
                pre,
                PhaseView::RunBatch { session, batch: batch_next(batch, reply).0, goal },
                ActionView::Batch { session, op },
            ),
            Ok(None) => run_end_of(pre, session, Ok(batch.outcomes), goal),
            Err(e) => run_end_of(pre, session, Err(e), goal),
        },
        (PhaseView::RunClosing { result, goal }, Event::Done) => after_run_of(pre, result, goal),
        (PhaseView::Polling { job }, Event::Polled(Polled::Ready(resolution))) => resolved_of(
            pre,
            job,
            resolution,
        ),
        (PhaseView::Polling { job }, Event::Polled(Polled::Pending)) => moved(
            pre,
            PhaseView::PeekReceiving { job },
            ActionView::Receive,
        ),
        (PhaseView::PeekReceiving { job }, Event::Arrived(messages)) => {
            let all = pre.queue + views(messages@);
            (
                HarnessView {
                    queue: all.filter(is_not_peek_response()),
                    phase: PhaseView::PeekDelivering { job },
                    ..pre
                },
                ActionView::Deliver { messages: all.filter(is_peek_response()) },
            )
        },
        (PhaseView::PeekDelivering { job }, Event::Done) => match job_ticket(job) {
            Some(ticket) => moved(pre, PhaseView::Polling { job }, ActionView::Poll { ticket }),
            None => unexpected(pre),
        },
        (PhaseView::RenderClosing { rendered }, Event::Done) => finished(
            pre,
            lines_joined(rendered),
        ),
        (PhaseView::CancelConnecting { target }, Event::Connected(via)) => moved(
            pre,
            PhaseView::CancelRequesting { via },
            ActionView::Cancel { via, conn_id: target.conn_id, secret_key: target.secret_key },
        ),
        (PhaseView::CancelRequesting { via }, Event::Done) => moved(
            pre,
            PhaseView::CancelClosing,
            ActionView::Terminate { session: via },
        ),
        (PhaseView::CancelClosing, Event::Done) => finished(pre, Seq::empty()),
        (PhaseView::Injecting, Event::Done) => finished(pre, Seq::empty()),
        (PhaseView::Writing, Event::Done) => finished(pre, Seq::empty()),
        _ => unexpected(pre),
    }
}

} // verus!
