//! What holds of every step of the interpreter of directives, whatever
//! the script and whatever the driver hands in.

use crate::batch::{batch_begin, batch_next, BatchError, BatchStep, Outcome};
use crate::feedback::{
    is_not_peek_response, is_peek_response, upper_entries, views, MessageView, ObjectId,
};
use crate::future::Polled;
use crate::harness::HarnessView;
use crate::protocol::{
    ActionView, Event, PeekJobView, PhaseView, RenderJobView, RunGoalView, SnapshotGoalView,
};
use crate::directive::{directive_of, Argument, DirectiveView};
use crate::protocol::FatalView;
use crate::queue::{lemma_release_excluding_conserves, lemma_withheld_entries};
use crate::session::{lemma_await_returns_deferred, NotFound, Session};
use crate::transition::{
    begin_of, halted, job_ticket, next_of, render_of, run_end_of, start_of, unexpected,
};
use crate::uppers::{lemma_uppers_never_fall, lines_of, upper_of};
use vstd::prelude::*;

verus! {

/// The session that the directive in work has opened and has not yet
/// asked to be closed or stored.
pub open spec fn open_session(phase: PhaseView) -> Option<Session> {
    match phase {
        PhaseView::SnapshotDumping { session, .. } => Some(session),
        PhaseView::RunParsing { session, .. } => Some(session),
        PhaseView::RunBatch { session, .. } => Some(session),
        PhaseView::CancelRequesting { via } => Some(via),
        PhaseView::Polling { job: PeekJobView::Render(job) } => job.closing,
        PhaseView::PeekReceiving { job: PeekJobView::Render(job) } => job.closing,
        PhaseView::PeekDelivering { job: PeekJobView::Render(job) } => job.closing,
        _ => None,
    }
}

/// Whether a session is stored under some name.
pub open spec fn is_stored<P>(state: HarnessView<P>, session: Session) -> bool {
    exists|name: Seq<char>|
        state.sessions.persisted.contains_key(name) && #[trigger] state.sessions.persisted[name]
            == session
}

/// No session is left open: whatever the event, a session that a
/// directive has opened stays with the directive, is stored under a name,
/// or is closed by the very next action, unless the run ends.
pub proof fn lemma_sessions_are_closed<P>(pre: HarnessView<P>, event: Event<P>, session: Session)
    requires
        open_session(pre.phase) == Some(session),
    ensures
        ({
            let (post, action) = next_of(pre, event);
            ||| open_session(post.phase) == Some(session)
            ||| action == ActionView::<P>::Terminate { session }
            ||| action is Fail
            ||| is_stored(post, session)
        }),
{
    let (post, action) = next_of(pre, event);
    match pre.phase {
        PhaseView::RunParsing { session, goal } => {
            if let Event::Parsed(parsed) = event {
                match batch_begin(parsed).1 {
                    BatchStep::Finished(Ok(outcomes)) => {
                        lemma_run_end_settles(pre, session, Ok(outcomes@), goal);
                    },
                    BatchStep::Finished(Err(e)) => {
                        lemma_run_end_settles(pre, session, Err(e), goal);
                    },
                    _ => {},
                }
            }
        },
        PhaseView::RunBatch { session, batch, goal } => {
            if let Event::Replied(reply) = event {
                match batch_next(batch, reply).1 {
                    Ok(None) => {
                        lemma_run_end_settles(pre, session, Ok(batch.outcomes), goal);
                    },
                    Err(e) => {
                        lemma_run_end_settles(pre, session, Err(e), goal);
                    },
                    _ => {},
                }
            }
        },
        PhaseView::Polling { job: PeekJobView::Render(job) } => {
            if let Event::Polled(Polled::Ready(resolution)) = event {
                if job_ticket(PeekJobView::Render(job)) is Some {
                    lemma_render_closes(
                        pre,
                        RenderJobView {
                            next: job.next + 1,
                            rendered: job.rendered.push(resolution.rendering@),
                            ..job
                        },
                    );
                }
            }
        },
        _ => {},
    }
}

/// The end of a batch closes its session or stores it.
proof fn lemma_run_end_settles<P>(
    pre: HarnessView<P>,
    session: Session,
    result: Result<Seq<Outcome>, BatchError>,
    goal: RunGoalView,
)
    ensures
        ({
            let (post, action) = run_end_of(pre, session, result, goal);
            ||| action == ActionView::<P>::Terminate { session }
            ||| action is Fail
            ||| is_stored(post, session)
        }),
{
    let (post, action) = run_end_of(pre, session, result, goal);
    if let RunGoalView::AsyncSql { session: name } = goal {
        if !(action is Fail) {
            assert(post.sessions.persisted.contains_key(name) && post.sessions.persisted[name]
                == session);
        }
    }
}

/// Showing outcomes keeps the session that is to be closed, or closes it.
proof fn lemma_render_closes<P>(pre: HarnessView<P>, job: RenderJobView)
    ensures
        ({
            let (post, action) = render_of(pre, job);
            match job.closing {
                Some(session) => open_session(post.phase) == Some(session) || action
                    == (ActionView::<P>::Terminate { session }) || action is Fail,
                None => open_session(post.phase) is None,
            }
        }),
{
}

/// Only `inc-timestamp` and the retry of a wait move the clock, and
/// neither moves it back: an event leaves the clock where it is, except
/// that a failed attempt of a wait moves it by exactly one.
pub proof fn lemma_clock_moves_by_command<P>(pre: HarnessView<P>, event: Event<P>)
    ensures
        ({
            let (post, action) = next_of(pre, event);
            ||| post.clock == pre.clock
            ||| pre.phase is WaitTiming && action is Receive && post.clock == pre.clock + 1
        }),
{
}

/// The upper of no object falls, whatever the event.
pub proof fn lemma_event_keeps_uppers<P>(pre: HarnessView<P>, event: Event<P>, id: ObjectId)
    ensures
        upper_of(next_of(pre, event).0.uppers, id) >= upper_of(pre.uppers, id),
{
    if let PhaseView::SnapshotClosing { databases, rendering, goal } = pre.phase {
        if let SnapshotGoalView::UpdateUpper { body } = goal {
            lemma_uppers_never_fall(pre.uppers, databases, lines_of(body), id);
        }
    }
}

/// Nothing leaves the queue but by delivery, and nothing is delivered
/// that was not queued or has not just arrived.
///
/// An event that brings no arrivals leaves the queue as it is; so an
/// injected upper goes past the queue. When arrivals are taken in, the
/// frontier entries delivered and those kept are together those that were
/// queued or have arrived, and so are the answers to peeks.
pub proof fn lemma_queue_is_conserved<P>(pre: HarnessView<P>, event: Event<P>)
    ensures
        ({
            let (post, action) = next_of(pre, event);
            match (event, action) {
                (Event::Arrived(arrived), ActionView::Deliver { messages }) => {
                    let all = pre.queue + views(arrived@);
                    &&& upper_entries(messages).to_multiset().add(
                        upper_entries(post.queue).to_multiset(),
                    ) == upper_entries(all).to_multiset()
                    &&& messages.filter(is_peek_response()).to_multiset().add(
                        post.queue.filter(is_peek_response()).to_multiset(),
                    ) == all.filter(is_peek_response()).to_multiset()
                },
                _ => post.queue == pre.queue,
            }
        }),
{
    let (post, action) = next_of(pre, event);
    if let Event::Arrived(arrived) = event {
        let all = pre.queue + views(arrived@);
        match pre.phase {
            PhaseView::WaitReceiving { job } => {
                lemma_release_excluding_conserves(all, job.hidden);
                lemma_withheld_entries(all, job.hidden);
                assert(post.queue.filter(is_peek_response()) =~= Seq::<MessageView<P>>::empty());
                assert(messages_of(action).filter(is_peek_response()).to_multiset().add(
                    Seq::<MessageView<P>>::empty().to_multiset(),
                ) =~= all.filter(is_peek_response()).to_multiset()) by {
                    broadcast use vstd::seq_lib::group_to_multiset_ensures;

                }
            },
            PhaseView::PeekReceiving { job } => {
                lemma_peek_release_conserves(all);
            },
            _ => {},
        }
    }
}

spec fn messages_of<P>(action: ActionView<P>) -> Seq<MessageView<P>> {
    match action {
        ActionView::Deliver { messages } => messages,
        _ => Seq::empty(),
    }
}

/// Releasing the answers to peeks loses nothing and doubles nothing.
proof fn lemma_peek_release_conserves<P>(all: Seq<MessageView<P>>)
    ensures
        upper_entries(all.filter(is_peek_response())).to_multiset().add(
            upper_entries(all.filter(is_not_peek_response())).to_multiset(),
        ) == upper_entries(all).to_multiset(),
        all.filter(is_peek_response()).filter(is_peek_response()).to_multiset().add(
            all.filter(is_not_peek_response()).filter(is_peek_response()).to_multiset(),
        ) == all.filter(is_peek_response()).to_multiset(),
    decreases all.len(),
{
    broadcast use vstd::seq_lib::group_to_multiset_ensures;

    reveal(Seq::filter);
    let sent = all.filter(is_peek_response());
    let kept = all.filter(is_not_peek_response());
    if all.len() == 0 {
        assert(upper_entries(sent).to_multiset().add(upper_entries(kept).to_multiset())
            =~= upper_entries(all).to_multiset());
        assert(sent.filter(is_peek_response()).to_multiset().add(
            kept.filter(is_peek_response()).to_multiset(),
        ) =~= sent.to_multiset());
    } else {
        let front = all.drop_last();
        lemma_peek_release_conserves(front);
        let front_sent = front.filter(is_peek_response());
        let front_kept = front.filter(is_not_peek_response());
        if all.last().feedback is PeekResponse {
            assert(sent == front_sent.push(all.last()));
            assert(kept == front_kept);
            assert(sent.drop_last() == front_sent);
            assert(upper_entries(sent) =~= upper_entries(front_sent));
            assert(upper_entries(all) =~= upper_entries(front));
            assert(sent.filter(is_peek_response()) == front_sent.filter(is_peek_response()).push(
                all.last(),
            ));
            assert(sent.filter(is_peek_response()).to_multiset().add(
                kept.filter(is_peek_response()).to_multiset(),
            ) =~= sent.to_multiset());
        } else {
            assert(sent == front_sent);
            assert(kept == front_kept.push(all.last()));
            assert(kept.drop_last() == front_kept);
            assert(kept.filter(is_peek_response()) == front_kept.filter(is_peek_response()));
            let tail = all.last().feedback->FrontierUppers_0;
            assert(upper_entries(kept) == upper_entries(front_kept) + tail);
            assert(upper_entries(all) == upper_entries(front) + tail);
            lemma_entries_multiset_add(upper_entries(front_kept), tail);
            lemma_entries_multiset_add(upper_entries(front), tail);
            assert(upper_entries(sent).to_multiset().add(upper_entries(kept).to_multiset())
                =~= upper_entries(all).to_multiset());
        }
    }
}

/// The items of two sequences joined are the items of each, together.
proof fn lemma_entries_multiset_add<A>(a: Seq<A>, b: Seq<A>)
    ensures
        (a + b).to_multiset() == a.to_multiset().add(b.to_multiset()),
{
    vstd::seq_lib::lemma_multiset_commutative(a, b);
}

/// What `async-sql` ran under a free name, `await-sql` shows: when the
/// batch of a session that is to be stored under `name` ends with its
/// outcomes, the directive is done without output; an `await-sql` of the
/// name then shows exactly those outcomes, closes that session, and leaves
/// the store as it was before; and a second `await-sql` of the name ends
/// the run, since the name is not found.
pub proof fn lemma_async_then_await<P>(
    pre: HarnessView<P>,
    name: Seq<char>,
    session: Session,
    outcomes: Seq<Outcome>,
)
    requires
        !pre.sessions.persisted.contains_key(name),
        !pre.sessions.deferred.contains_key(name),
    ensures
        ({
            let ran = run_end_of(
                pre,
                session,
                Ok(outcomes),
                RunGoalView::AsyncSql { session: name },
            );
            let idle = HarnessView { phase: PhaseView::Idle, ..pre };
            &&& ran.1 == ActionView::<P>::Finish { output: Seq::empty() }
            &&& begin_of(ran.0, DirectiveView::AwaitSql { session: name }) == render_of(
                idle,
                RenderJobView {
                    outcomes,
                    next: 0,
                    rendered: Seq::empty(),
                    closing: Some(session),
                },
            )
            &&& begin_of(idle, DirectiveView::AwaitSql { session: name }) == halted(
                idle,
                FatalView::NotFound(NotFound::UnknownSession),
            )
        }),
{
    lemma_await_returns_deferred(pre.sessions, name, session, outcomes);
}

/// A session that was never started cannot be canceled: `async-cancel` of
/// a name under which nothing is stored ends the run, since the name is
/// not found, and changes nothing.
pub proof fn lemma_cancel_of_unknown_session<P>(pre: HarnessView<P>, name: Seq<char>)
    requires
        !pre.sessions.persisted.contains_key(name),
    ensures
        begin_of(pre, DirectiveView::AsyncCancel { session: name }) == halted(
            pre,
            FatalView::NotFound(NotFound::UnknownSession),
        ),
{
}

/// What the harness is handed: a record of the script, or the event that
/// answers an action.
pub enum Input<P> {
    Record { name: Seq<char>, args: Seq<Argument>, body: Seq<char> },
    Event(Event<P>),
}

/// The state after an input, and the action that answers it.
pub open spec fn step_of<P>(pre: HarnessView<P>, input: Input<P>) -> (
    HarnessView<P>,
    ActionView<P>,
) {
    match input {
        Input::Record { name, args, body } => start_of(pre, name, args, body),
        Input::Event(event) => next_of(pre, event),
    }
}

/// The state after a run of inputs.
pub open spec fn run_of<P>(pre: HarnessView<P>, inputs: Seq<Input<P>>) -> HarnessView<P>
    decreases inputs.len(),
{
    if inputs.len() == 0 {
        pre
    } else {
        step_of(run_of(pre, inputs.drop_last()), inputs.last()).0
    }
}

/// A run that has ended stays ended: once the run has failed, every input
/// is answered with a failure and changes nothing.
pub proof fn lemma_halted_stays_halted<P>(pre: HarnessView<P>, input: Input<P>)
    requires
        pre.phase is Halted,
    ensures
        step_of(pre, input) == unexpected(pre),
        step_of(pre, input).0 == pre,
        step_of(pre, input).1 is Fail,
{
}

/// A failure ends the run: the input that is answered with a failure
/// leaves the harness halted.
pub proof fn lemma_failure_halts<P>(pre: HarnessView<P>, input: Input<P>)
    ensures
        step_of(pre, input).1 is Fail <==> step_of(pre, input).0.phase is Halted,
{
    match input {
        Input::Record { name, args, body } => {
            if pre.phase is Idle {
                if let Ok(directive) = directive_of(name, args, body, pre.temp_dir) {
                    lemma_begin_halts_on_failure(pre, directive);
                }
            }
        },
        Input::Event(event) => {
            lemma_event_halts_on_failure(pre, event);
        },
    }
}

proof fn lemma_begin_halts_on_failure<P>(pre: HarnessView<P>, directive: DirectiveView)
    ensures
        begin_of(pre, directive).1 is Fail <==> begin_of(pre, directive).0.phase is Halted,
{
}

proof fn lemma_event_halts_on_failure<P>(pre: HarnessView<P>, event: Event<P>)
    ensures
        next_of(pre, event).1 is Fail <==> next_of(pre, event).0.phase is Halted,
{
}

/// The clock never goes back, whatever the input.
pub proof fn lemma_step_keeps_clock<P>(pre: HarnessView<P>, input: Input<P>)
    ensures
        step_of(pre, input).0.clock >= pre.clock,
{
    if let Input::Event(event) = input {
        lemma_clock_moves_by_command(pre, event);
    }
}

/// The upper of no object falls, whatever the input.
pub proof fn lemma_step_keeps_uppers<P>(pre: HarnessView<P>, input: Input<P>, id: ObjectId)
    ensures
        upper_of(step_of(pre, input).0.uppers, id) >= upper_of(pre.uppers, id),
{
    if let Input::Event(event) = input {
        lemma_event_keeps_uppers(pre, event, id);
    }
}

/// Over any run of inputs, the clock never goes back and the upper of no
/// object falls.
pub proof fn lemma_run_is_monotonic<P>(pre: HarnessView<P>, inputs: Seq<Input<P>>, id: ObjectId)
    ensures
        run_of(pre, inputs).clock >= pre.clock,
        upper_of(run_of(pre, inputs).uppers, id) >= upper_of(pre.uppers, id),
    decreases inputs.len(),
{
    if inputs.len() > 0 {
        let before = run_of(pre, inputs.drop_last());
        lemma_run_is_monotonic(pre, inputs.drop_last(), id);
        lemma_step_keeps_clock(before, inputs.last());
        lemma_step_keeps_uppers(before, inputs.last(), id);
    }
}

} // verus!
