//! The interpreter of directives: what each directive does, one action at
//! a time.
//!
//! [`CoordTest::start`] reads a record of the script and gives the first
//! action of its directive. [`CoordTest::handle`] takes the event that
//! answers an action and gives the next one, until the directive finishes
//! with its output or the run fails. The driver carries out the actions
//! and decides nothing.

use crate::batch::{batch_in_order, BatchError, BatchStep, Outcome, StatementBatch};
use crate::catalog::Catalog;
use crate::directive::{Argument, Directive, DirectiveError, Violation};
use crate::feedback::{Feedback, FeedbackMessage, UpperEntry};
use crate::future::Polled;
use crate::harness::CoordTest;
use crate::protocol::{
    change_updates, entry_updates, Action, CheckJob, Event, Fatal, PeekJob, PeekJobView, Phase,
    RenderJob, Resolution, RunGoal, SnapshotGoal, WaitJob,
};
use crate::session::Session;
use crate::text::{join_lines, lemma_texts_push, push_char};
use crate::transition::{
    after_run_of, after_snapshot_of, attempt_of, batch_fatal, begin_of, check_of, finished,
    halted, job_ticket, moved, next_of, ready_renderings, render_of, resolved_of, run_end_of,
    start_of, unexpected,
};
use crate::uppers::{apply_uppers, carries, lines_of, UpperChange, INJECTING_WORKER};
use crate::wait::{
    check_all_true, is_timed_out, resolve_excluded, wait_sql_step, Resolved, WaitError,
    WaitFailure, WaitStep, WaitVerdict,
};
use vstd::prelude::*;

verus! {

/// Entries that carry changes store the updates that report them.
proof fn lemma_carried_updates(entries: Seq<UpperEntry>, changes: Seq<UpperChange>)
    requires
        carries(entries, changes),
    ensures
        entry_updates(entries) == change_updates(changes),
{
    assert(entry_updates(entries) =~= change_updates(changes));
}

/// The end of the run that the error of a batch brings.
fn fatal_of(e: BatchError) -> (fatal: Fatal)
    ensures
        fatal@ == batch_fatal(e),
{
    match e {
        BatchError::ParseError(message) => Fatal::ParseError(message),
        BatchError::ExecutionError(message) => Fatal::ExecutionError(message),
        BatchError::UnexpectedReply => Fatal::ProtocolViolation(Violation::UnexpectedEvent),
    }
}

/// The rows that a job is waiting for.
fn ticket_of(job: &PeekJob) -> (ticket: Option<u64>)
    ensures
        ticket == job_ticket(job@),
{
    match job {
        PeekJob::Render(job) => {
            if job.next < job.outcomes.len() {
                match &job.outcomes[job.next] {
                    Outcome::SendingRows(ticket) => Some(*ticket),
                    Outcome::Response(_) => None,
                }
            } else {
                None
            }
        },
        PeekJob::Check(job) => {
            if job.next < job.outcomes.len() {
                match &job.outcomes[job.next] {
                    Outcome::SendingRows(ticket) => Some(*ticket),
                    Outcome::Response(_) => None,
                }
            } else {
                None
            }
        },
    }
}

impl<P> CoordTest<P> {
    fn halt(&mut self, fatal: Fatal) -> (action: Action<P>)
        requires
            old(self).sessions.well_formed(),
        ensures
            final(self).well_formed(),
            (final(self)@, action@) == halted(old(self)@, fatal@),
    {
        self.phase = Phase::Halted;
        Action::Fail { fatal }
    }

    fn surprised(&mut self) -> (action: Action<P>)
        requires
            old(self).sessions.well_formed(),
        ensures
            final(self).well_formed(),
            (final(self)@, action@) == unexpected(old(self)@),
    {
        self.halt(Fatal::ProtocolViolation(Violation::UnexpectedEvent))
    }

    fn finish(&mut self, output: String) -> (action: Action<P>)
        requires
            old(self).sessions.well_formed(),
        ensures
            final(self).well_formed(),
            (final(self)@, action@) == finished(old(self)@, output@),
    {
        self.phase = Phase::Idle;
        Action::Finish { output }
    }

    fn go(&mut self, phase: Phase, action: Action<P>) -> (given: Action<P>)
        requires
            old(self).sessions.well_formed(),
            phase matches Phase::RunBatch { batch, .. } ==> batch_in_order(batch@),
        ensures
            final(self).well_formed(),
            given == action,
            (final(self)@, given@) == moved(old(self)@, phase@, action@),
    {
        self.phase = phase;
        action
    }

    fn attempt(&mut self, job: WaitJob) -> (action: Action<P>)
        requires
            old(self).sessions.well_formed(),
        ensures
            final(self).well_formed(),
            (final(self)@, action@) == attempt_of(old(self)@, job@),
    {
        self.go(Phase::WaitReceiving { job }, Action::Receive)
    }

    fn render(&mut self, job: RenderJob) -> (action: Action<P>)
        requires
            old(self).sessions.well_formed(),
        ensures
            final(self).well_formed(),
            (final(self)@, action@) == render_of(old(self)@, job@),
    {
        let ghost pre = self@;
        let mut work = job;
        while work.next < work.outcomes.len()
            invariant
                self@ == pre,
                pre == old(self)@,
                self.sessions.well_formed(),
                render_of(pre, work@) == render_of(pre, job@),
            decreases work.outcomes.len() - work.next,
        {
            let ghost before = work@;
            match &work.outcomes[work.next] {
                Outcome::Response(text) => {
                    let shown = text.clone();
                    proof {
                        lemma_texts_push(work.rendered@, shown);
                        assert(before.rendered + (seq![shown@] + ready_renderings(
                            before.outcomes,
                            before.next + 1,
                        )) =~= before.rendered.push(shown@) + ready_renderings(
                            before.outcomes,
                            before.next + 1,
                        ));
                    }
                    work.rendered.push(shown);
                    work.next += 1;
                },
                Outcome::SendingRows(ticket) => {
                    let ticket = *ticket;
                    proof {
                        assert(before.rendered + Seq::<Seq<char>>::empty() =~= before.rendered);
                    }
                    return self.go(
                        Phase::Polling { job: PeekJob::Render(work) },
                        Action::Poll { ticket },
                    );
                },
            }
        }
        proof {
            assert(work@.rendered + Seq::<Seq<char>>::empty() =~= work@.rendered);
        }
        match work.closing {
            Some(session) => self.go(
                Phase::RenderClosing { rendered: work.rendered },
                Action::Terminate { session },
            ),
            None => {
                let output = join_lines(&work.rendered);
                self.finish(output)
            },
        }
    }

    fn check(&mut self, job: CheckJob) -> (action: Action<P>)
        requires
            old(self).sessions.well_formed(),
        ensures
            final(self).well_formed(),
            (final(self)@, action@) == check_of(old(self)@, job@),
    {
        if job.next >= job.outcomes.len() {
            let CheckJob { wait, outcomes: _, next: _, resolved } = job;
            let attempt: Result<Vec<Resolved>, String> = Ok(resolved);
            match check_all_true(&attempt) {
                WaitVerdict::AllTrue => self.finish(String::new()),
                WaitVerdict::Failed(failure) => self.go(
                    Phase::WaitTiming { job: wait, failure },
                    Action::ReadTimer,
                ),
                WaitVerdict::ProtocolViolation => self.halt(
                    Fatal::ProtocolViolation(Violation::ExpectedRows),
                ),
            }
        } else {
            match &job.outcomes[job.next] {
                Outcome::SendingRows(ticket) => {
                    let ticket = *ticket;
                    self.go(Phase::Polling { job: PeekJob::Check(job) }, Action::Poll { ticket })
                },
                Outcome::Response(_) => self.halt(
                    Fatal::ProtocolViolation(Violation::ExpectedRows),
                ),
            }
        }
    }

    fn begin(&mut self, directive: Directive) -> (action: Action<P>)
        requires
            old(self).sessions.well_formed(),
        ensures
            final(self).well_formed(),
            (final(self)@, action@) == begin_of(old(self)@, directive@),
    {
        match directive {
            Directive::Sql { query } => self.go(
                Phase::RunConnecting { query, goal: RunGoal::Sql },
                Action::Connect,
            ),
            Directive::WaitSql { exclude_uppers, query } => self.go(
                Phase::SnapshotConnecting { goal: SnapshotGoal::WaitSql { exclude_uppers, query } },
                Action::Connect,
            ),
            Directive::AsyncSql { session, query } => self.go(
                Phase::RunConnecting { query, goal: RunGoal::AsyncSql { session } },
                Action::Connect,
            ),
            Directive::AsyncCancel { session } => match self.sessions.cancel(session.as_str()) {
                Ok(target) => self.go(Phase::CancelConnecting { target }, Action::Connect),
                Err(e) => self.halt(Fatal::NotFound(e)),
            },
            Directive::AwaitSql { session } => match self.sessions.await_sql(session.as_str()) {
                Ok((closing, outcomes)) => {
                    let job = RenderJob {
                        outcomes,
                        next: 0,
                        rendered: Vec::new(),
                        closing: Some(closing),
                    };
                    proof {
                        assert(job@.rendered =~= Seq::<Seq<char>>::empty());
                    }
                    self.render(job)
                },
                Err(e) => self.halt(Fatal::NotFound(e)),
            },
            Directive::UpdateUpper { body } => self.go(
                Phase::SnapshotConnecting { goal: SnapshotGoal::UpdateUpper { body } },
                Action::Connect,
            ),
            Directive::IncTimestamp { delta } => {
                if self.timestamp.try_advance(delta) {
                    self.finish(String::new())
                } else {
                    self.halt(Fatal::ClockOverflow)
                }
            },
            Directive::CreateFile { name, content } => self.go(
                Phase::Writing,
                Action::WriteFile { name, content, append: false },
            ),
            Directive::AppendFile { name, content } => self.go(
                Phase::Writing,
                Action::WriteFile { name, content, append: true },
            ),
            Directive::PrintCatalog => self.go(
                Phase::SnapshotConnecting { goal: SnapshotGoal::PrintCatalog },
                Action::Connect,
            ),
        }
    }

    /// Takes up a record of the script and gives the first action of its
    /// directive.
    ///
    /// A record that is no directive ends the run, and so does a record
    /// that comes while a directive is in work.
    pub fn start(&mut self, name: &str, args: &Vec<Argument>, body: &str) -> (action: Action<P>)
        requires
            old(self).well_formed(),
        ensures
            final(self).well_formed(),
            (final(self)@, action@) == start_of(old(self)@, name@, args@, body@),
    {
        match &self.phase {
            Phase::Idle => {},
            _ => {
                return self.surprised();
            },
        }
        match self.read_directive(name, args, body) {
            Ok(directive) => self.begin(directive),
            Err(DirectiveError::UnrecognizedDirective) => self.halt(Fatal::UnrecognizedDirective),
            Err(DirectiveError::ProtocolViolation(violation)) => self.halt(
                Fatal::ProtocolViolation(violation),
            ),
        }
    }

    fn after_snapshot(
        &mut self,
        catalog: Catalog,
        rendering: String,
        goal: SnapshotGoal,
    ) -> (action: Action<P>)
        requires
            old(self).sessions.well_formed(),
        ensures
            final(self).well_formed(),
            (final(self)@, action@) == after_snapshot_of(
                old(self)@,
                catalog.databases@,
                rendering@,
                goal@,
            ),
    {
        match goal {
            SnapshotGoal::WaitSql { exclude_uppers, query } => match resolve_excluded(
                &catalog,
                &exclude_uppers,
            ) {
                Ok(hidden) => self.go(
                    Phase::WaitTimer { job: WaitJob { hidden, query } },
                    Action::StartTimer,
                ),
                Err(e) => self.halt(Fatal::UnresolvedPath(e)),
            },
            SnapshotGoal::UpdateUpper { body } => match self.uppers.update_upper(
                &catalog,
                body.as_str(),
            ) {
                Ok(entries) => {
                    proof {
                        let applied = apply_uppers(
                            old(self)@.uppers,
                            catalog.databases@,
                            lines_of(body@),
                        );
                        lemma_carried_updates(entries@, applied.1->Ok_0);
                    }
                    let message = FeedbackMessage {
                        worker_id: INJECTING_WORKER,
                        feedback: Feedback::FrontierUppers(entries),
                    };
                    self.go(Phase::Injecting, Action::Inject { message })
                },
                Err(e) => self.halt(Fatal::RejectedUpper(e)),
            },
            SnapshotGoal::PrintCatalog => {
                let mut output = rendering;
                push_char(&mut output, '\n');
                self.finish(output)
            },
        }
    }

    fn run_end(
        &mut self,
        session: Session,
        result: Result<Vec<Outcome>, BatchError>,
        goal: RunGoal,
    ) -> (action: Action<P>)
        requires
            old(self).sessions.well_formed(),
        ensures
            final(self).well_formed(),
            (final(self)@, action@) == run_end_of(
                old(self)@,
                session,
                match result {
                    Ok(outcomes) => Ok(outcomes@),
                    Err(e) => Err(e),
                },
                goal@,
            ),
    {
        match goal {
            RunGoal::AsyncSql { session: name } => {
                match self.sessions.persist(name.clone(), session) {
                    Err(e) => self.halt(Fatal::NotFound(e)),
                    Ok(()) => match result {
                        Err(e) => {
                            let fatal = fatal_of(e);
                            self.halt(fatal)
                        },
                        Ok(outcomes) => match self.sessions.defer(name, outcomes) {
                            Ok(()) => self.finish(String::new()),
                            Err(e) => self.halt(Fatal::NotFound(e)),
                        },
                    },
                }
            },
            goal => self.go(Phase::RunClosing { result, goal }, Action::Terminate { session }),
        }
    }

    fn after_run(&mut self, result: Result<Vec<Outcome>, BatchError>, goal: RunGoal) -> (action:
        Action<P>)
        requires
            old(self).sessions.well_formed(),
        ensures
            final(self).well_formed(),
            (final(self)@, action@) == after_run_of(
                old(self)@,
                match result {
                    Ok(outcomes) => Ok(outcomes@),
                    Err(e) => Err(e),
                },
                goal@,
            ),
    {
        match goal {
            RunGoal::Sql => match result {
                Ok(outcomes) => {
                    let job = RenderJob { outcomes, next: 0, rendered: Vec::new(), closing: None };
                    proof {
                        assert(job@.rendered =~= Seq::<Seq<char>>::empty());
                    }
                    self.render(job)
                },
                Err(e) => {
                    let fatal = fatal_of(e);
                    self.halt(fatal)
                },
            },
            RunGoal::WaitSql(job) => match result {
                Ok(outcomes) => self.check(
                    CheckJob { wait: job, outcomes, next: 0, resolved: Vec::new() },
                ),
                Err(BatchError::ParseError(message)) => self.go(
                    Phase::WaitTiming { job, failure: WaitFailure::Execution(message) },
                    Action::ReadTimer,
                ),
                Err(BatchError::ExecutionError(message)) => self.go(
                    Phase::WaitTiming { job, failure: WaitFailure::Execution(message) },
                    Action::ReadTimer,
                ),
                Err(BatchError::UnexpectedReply) => self.surprised(),
            },
            RunGoal::AsyncSql { .. } => self.surprised(),
        }
    }

    fn resolved(&mut self, job: PeekJob, resolution: Resolution) -> (action: Action<P>)
        requires
            old(self).sessions.well_formed(),
        ensures
            final(self).well_formed(),
            (final(self)@, action@) == resolved_of(old(self)@, job@, resolution),
    {
        if ticket_of(&job).is_none() {
            return self.surprised();
        }
        let Resolution { result, rendering } = resolution;
        match job {
            PeekJob::Render(job) => {
                let mut job = job;
                assert(job.next < job.outcomes.len()) by {
                    assert(job_ticket(PeekJobView::Render(job@)) is Some);
                }
                proof {
                    lemma_texts_push(job.rendered@, rendering);
                }
                job.rendered.push(rendering);
                job.next += 1;
                self.render(job)
            },
            PeekJob::Check(job) => {
                let mut job = job;
                assert(job.next < job.outcomes.len()) by {
                    assert(job_ticket(PeekJobView::Check(job@)) is Some);
                }
                job.resolved.push(Resolved::Rows(result));
                job.next += 1;
                self.check(job)
            },
        }
    }

    /// Takes the event that answers the action in work and gives the next
    /// action.
    ///
    /// The actions of a directive, in their order, and the state that they
    /// leave are those of [`next_of`]. An event of the wrong kind ends the
    /// run.
    pub fn handle(&mut self, event: Event<P>) -> (action: Action<P>)
        requires
            old(self).well_formed(),
        ensures
            final(self).well_formed(),
            (final(self)@, action@) == next_of(old(self)@, event),
    {
        let mut phase = Phase::Halted;
        core::mem::swap(&mut phase, &mut self.phase);
        match phase {
            Phase::SnapshotConnecting { goal } => match event {
                Event::Connected(session) => self.go(
                    Phase::SnapshotDumping { session, goal },
                    Action::DumpCatalog { session },
                ),
                _ => self.surprised(),
            },
            Phase::SnapshotDumping { session, goal } => match event {
                Event::Dumped { catalog, rendering } => self.go(
                    Phase::SnapshotClosing { catalog, rendering, goal },
                    Action::Terminate { session },
                ),
                _ => self.surprised(),
            },
            Phase::SnapshotClosing { catalog, rendering, goal } => match event {
                Event::Done => self.after_snapshot(catalog, rendering, goal),
                _ => self.surprised(),
            },
            Phase::WaitTimer { job } => match event {
                Event::Done => self.attempt(job),
                _ => self.surprised(),
            },
            Phase::WaitReceiving { job } => match event {
                Event::Arrived(messages) => {
                    let delivered = self.queued_feedback.release_excluding(messages, &job.hidden);
                    self.go(Phase::WaitDelivering { job }, Action::Deliver { messages: delivered })
                },
                _ => self.surprised(),
            },
            Phase::WaitDelivering { job } => match event {
                Event::Done => {
                    let query = job.query.clone();
                    self.go(
                        Phase::RunConnecting { query, goal: RunGoal::WaitSql(job) },
                        Action::Connect,
                    )
                },
                _ => self.surprised(),
            },
            Phase::WaitTiming { job, failure } => match event {
                Event::Elapsed { secs, subsec_nanos } => {
                    if !is_timed_out(secs, subsec_nanos) && self.timestamp.get() == u64::MAX {
                        return self.halt(Fatal::ClockOverflow);
                    }
                    match wait_sql_step(
                        &mut self.timestamp,
                        WaitVerdict::Failed(failure),
                        secs,
                        subsec_nanos,
                    ) {
                        Ok(WaitStep::Retry) => self.attempt(job),
                        Err(WaitError::Timeout(failure)) => self.halt(Fatal::Timeout(failure)),
                        _ => self.surprised(),
                    }
                },
                _ => self.surprised(),
            },
            Phase::RunConnecting { query, goal } => match event {
                Event::Connected(session) => self.go(
                    Phase::RunParsing { session, goal },
                    Action::Parse { query },
                ),
                _ => self.surprised(),
            },
            Phase::RunParsing { session, goal } => match event {
                Event::Parsed(parsed) => {
                    let (batch, step) = StatementBatch::begin(parsed);
                    match step {
                        BatchStep::Request(op) => self.go(
                            Phase::RunBatch { session, batch, goal },
                            Action::Batch { session, op },
                        ),
                        BatchStep::Finished(result) => self.run_end(session, result, goal),
                    }
                },
                _ => self.surprised(),
            },
            Phase::RunBatch { session, batch, goal } => match event {
                Event::Replied(reply) => {
                    let mut batch = batch;
                    match batch.reply(reply) {
                        BatchStep::Request(op) => self.go(
                            Phase::RunBatch { session, batch, goal },
                            Action::Batch { session, op },
                        ),
                        BatchStep::Finished(result) => self.run_end(session, result, goal),
                    }
                },
                _ => self.surprised(),
            },
            Phase::RunClosing { result, goal } => match event {
                Event::Done => self.after_run(result, goal),
                _ => self.surprised(),
            },
            Phase::Polling { job } => match event {
                Event::Polled(Polled::Ready(resolution)) => self.resolved(job, resolution),
                Event::Polled(Polled::Pending) => self.go(
                    Phase::PeekReceiving { job },
                    Action::Receive,
                ),
                _ => self.surprised(),
            },
            Phase::PeekReceiving { job } => match event {
                Event::Arrived(messages) => {
                    let delivered = self.queued_feedback.release_only_peek_responses(messages);
                    self.go(Phase::PeekDelivering { job }, Action::Deliver { messages: delivered })
                },
                _ => self.surprised(),
            },
            Phase::PeekDelivering { job } => match event {
                Event::Done => match ticket_of(&job) {
                    Some(ticket) => self.go(Phase::Polling { job }, Action::Poll { ticket }),
                    None => self.surprised(),
                },
                _ => self.surprised(),
            },
            Phase::RenderClosing { rendered } => match event {
                Event::Done => {
                    let output = join_lines(&rendered);
                    self.finish(output)
                },
                _ => self.surprised(),
            },
            Phase::CancelConnecting { target } => match event {
                Event::Connected(via) => self.go(
                    Phase::CancelRequesting { via },
                    Action::Cancel {
                        via,
                        conn_id: target.conn_id,
                        secret_key: target.secret_key,
                    },
                ),
                _ => self.surprised(),
            },
            Phase::CancelRequesting { via } => match event {
                Event::Done => self.go(Phase::CancelClosing, Action::Terminate { session: via }),
                _ => self.surprised(),
            },
            Phase::CancelClosing => match event {
                Event::Done => self.finish(String::new()),
                _ => self.surprised(),
            },
            Phase::Injecting => match event {
                Event::Done => self.finish(String::new()),
                _ => self.surprised(),
            },
            Phase::Writing => match event {
                Event::Done => self.finish(String::new()),
                _ => self.surprised(),
            },
            Phase::Idle => self.surprised(),
            Phase::Halted => self.surprised(),
        }
    }
}

} // verus!
