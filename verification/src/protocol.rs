//! What passes between the interpreter of directives and its driver.
//!
//! The interpreter decides and the driver acts. The interpreter hands the
//! driver one action at a time; the driver carries it out against the
//! coordinator, the feedback channels, the timer or the fixture directory,
//! and hands back the event that shows what came of it. Between two
//! actions the interpreter remembers, as its phase, what the directive in
//! work still has to do.

use crate::batch::{BatchOp, BatchReply, BatchState, Outcome, StatementBatch};
use crate::catalog::{Catalog, CatalogError, CatalogMiss, Database};
use crate::directive::Violation;
use crate::feedback::{
    batch_updates, views, Feedback, FeedbackMessage, MessageView, ObjectId, Timestamp, UpperEntry,
};
use crate::future::Polled;
use crate::peek::PeekResult;
use crate::session::{NotFound, Session};
use crate::text::texts;
use crate::uppers::{UpperChange, UpperError, UpperFailure};
use crate::wait::{Resolved, WaitFailure};
use std::collections::HashSet;
use vstd::prelude::*;

verus! {

/// Why the run ends. Nothing is tolerated and nothing is retried but what a
/// directive retries itself: an unexpected state is a bug of the script or
/// of the system under test.
#[derive(Clone, Debug, PartialEq, Eq)]
pub enum Fatal {
    /// The statements of a directive do not parse.
    ParseError(String),
    /// A statement failed in a directive that needs its outcome.
    ExecutionError(String),
    /// A record lacks what its directive requires, a statement answered
    /// with the wrong kind of outcome, or the driver with the wrong event.
    ProtocolViolation(Violation),
    /// A wait ran out of time; the reason is that of its last failure.
    Timeout(WaitFailure),
    /// A session that a directive names is not there, or the name that it
    /// gives to a new one is taken.
    NotFound(NotFound),
    /// No directive has the name of the record.
    UnrecognizedDirective,
    /// A path does not resolve in the catalog.
    UnresolvedPath(CatalogError),
    /// An upper was not taken.
    RejectedUpper(UpperError),
    /// The logical clock cannot move as far as it was told to.
    ClockOverflow,
}

/// The mathematical content of a [`Fatal`].
pub enum FatalView {
    ParseError(String),
    ExecutionError(String),
    ProtocolViolation(Violation),
    Timeout(WaitFailure),
    NotFound(NotFound),
    UnrecognizedDirective,
    UnresolvedPath(CatalogMiss),
    RejectedUpper(UpperFailure),
    ClockOverflow,
}

impl View for Fatal {
    type V = FatalView;

    open spec fn view(&self) -> FatalView {
        match *self {
            Fatal::ParseError(message) => FatalView::ParseError(message),
            Fatal::ExecutionError(message) => FatalView::ExecutionError(message),
            Fatal::ProtocolViolation(violation) => FatalView::ProtocolViolation(violation),
            Fatal::Timeout(failure) => FatalView::Timeout(failure),
            Fatal::NotFound(what) => FatalView::NotFound(what),
            Fatal::UnrecognizedDirective => FatalView::UnrecognizedDirective,
            Fatal::UnresolvedPath(e) => FatalView::UnresolvedPath(e@),
            Fatal::RejectedUpper(e) => FatalView::RejectedUpper(e@),
            Fatal::ClockOverflow => FatalView::ClockOverflow,
        }
    }
}

/// What the driver is to do next.
#[derive(Clone, Debug, PartialEq, Eq)]
pub enum Action<P> {
    /// Open a new session; answer with [`Event::Connected`].
    Connect,
    /// Parse the statements; answer with [`Event::Parsed`].
    Parse { query: String },
    /// Make this request of a batch in the session; answer with
    /// [`Event::Replied`].
    Batch { session: Session, op: BatchOp },
    /// Close the session; answer with [`Event::Done`].
    Terminate { session: Session },
    /// Dump the catalog through the session; answer with
    /// [`Event::Dumped`].
    DumpCatalog { session: Session },
    /// Take what has arrived on the intercepted channel, without waiting;
    /// answer with [`Event::Arrived`].
    Receive,
    /// Send the messages to the coordinator, in this order; answer with
    /// [`Event::Done`].
    Deliver { messages: Vec<FeedbackMessage<P>> },
    /// Send the coordinator a progress report that comes from outside and
    /// was never queued; answer with [`Event::Done`].
    Inject { message: FeedbackMessage<P> },
    /// Poll once, without suspending, the rows that a statement streams;
    /// answer with [`Event::Polled`].
    Poll { ticket: u64 },
    /// Through the session `via`, ask for the cancellation of the
    /// connection; answer with [`Event::Done`].
    Cancel { via: Session, conn_id: u32, secret_key: u32 },
    /// Note the time; answer with [`Event::Done`].
    StartTimer,
    /// Say how much time has passed since it was noted; answer with
    /// [`Event::Elapsed`].
    ReadTimer,
    /// Write the content to the fixture file, at its end or in place of
    /// what it held; answer with [`Event::Done`].
    WriteFile { name: String, content: String, append: bool },
    /// The directive is done, with this output.
    Finish { output: String },
    /// The run is over.
    Fail { fatal: Fatal },
}

/// The rows that a statement streamed, and the text that shows them.
#[derive(Clone, Debug, PartialEq, Eq)]
pub struct Resolution {
    pub result: PeekResult,
    pub rendering: String,
}

/// What came of an action.
#[derive(Debug, PartialEq, Eq)]
pub enum Event<P> {
    /// The action was carried out and has nothing to show.
    Done,
    /// A session was opened.
    Connected(Session),
    /// The statements were parsed: their number, or why they do not parse.
    Parsed(Result<usize, String>),
    /// The coordinator replied to the request of a batch.
    Replied(BatchReply),
    /// The catalog was dumped: its snapshot, and the text that shows it.
    Dumped { catalog: Catalog, rendering: String },
    /// These messages had arrived.
    Arrived(Vec<FeedbackMessage<P>>),
    /// The rows were polled.
    Polled(Polled<Resolution>),
    /// This much time has passed.
    Elapsed { secs: u64, subsec_nanos: u32 },
}

/// A progress report by what its batches store: for each entry the object
/// and the updates of its batch.
pub open spec fn entry_updates(entries: Seq<UpperEntry>) -> Seq<(ObjectId, Seq<(Timestamp, i64)>)> {
    entries.map_values(|e: UpperEntry| (e.0, batch_updates(e.1)))
}

/// The updates that report the given changes: for each change the
/// retraction of the old upper and the addition of the new one.
pub open spec fn change_updates(changes: Seq<UpperChange>) -> Seq<
    (ObjectId, Seq<(Timestamp, i64)>),
> {
    changes.map_values(|c: UpperChange| (c.id, seq![(c.from, -1i64), (c.to, 1i64)]))
}

/// The mathematical content of an [`Action`].
pub enum ActionView<P> {
    Connect,
    Parse { query: Seq<char> },
    Batch { session: Session, op: BatchOp },
    Terminate { session: Session },
    DumpCatalog { session: Session },
    Receive,
    Deliver { messages: Seq<MessageView<P>> },
    Inject { worker_id: usize, updates: Seq<(ObjectId, Seq<(Timestamp, i64)>)> },
    Poll { ticket: u64 },
    Cancel { via: Session, conn_id: u32, secret_key: u32 },
    StartTimer,
    ReadTimer,
    WriteFile { name: Seq<char>, content: Seq<char>, append: bool },
    Finish { output: Seq<char> },
    Fail { fatal: FatalView },
}

impl<P> View for Action<P> {
    type V = ActionView<P>;

    open spec fn view(&self) -> ActionView<P> {
        match *self {
            Action::Connect => ActionView::Connect,
            Action::Parse { query } => ActionView::Parse { query: query@ },
            Action::Batch { session, op } => ActionView::Batch { session, op },
            Action::Terminate { session } => ActionView::Terminate { session },
            Action::DumpCatalog { session } => ActionView::DumpCatalog { session },
            Action::Receive => ActionView::Receive,
            Action::Deliver { messages } => ActionView::Deliver { messages: views(messages@) },
            Action::Inject { message } => ActionView::Inject {
                worker_id: message.worker_id,
                updates: match message.feedback {
                    Feedback::FrontierUppers(entries) => entry_updates(entries@),
                    Feedback::PeekResponse(..) => Seq::empty(),
                },
            },
            Action::Poll { ticket } => ActionView::Poll { ticket },
            Action::Cancel { via, conn_id, secret_key } => ActionView::Cancel {
                via,
                conn_id,
                secret_key,
            },
            Action::StartTimer => ActionView::StartTimer,
            Action::ReadTimer => ActionView::ReadTimer,
            Action::WriteFile { name, content, append } => ActionView::WriteFile {
                name: name@,
                content: content@,
                append,
            },
            Action::Finish { output } => ActionView::Finish { output: output@ },
            Action::Fail { fatal } => ActionView::Fail { fatal: fatal@ },
        }
    }
}

/// A wait under way: the objects whose progress it hides, and the
/// statements that it runs.
#[derive(Debug, PartialEq, Eq)]
pub struct WaitJob {
    pub hidden: HashSet<ObjectId>,
    pub query: String,
}

/// The mathematical content of a [`WaitJob`].
pub struct WaitJobView {
    pub hidden: Set<ObjectId>,
    pub query: Seq<char>,
}

impl View for WaitJob {
    type V = WaitJobView;

    open spec fn view(&self) -> WaitJobView {
        WaitJobView { hidden: self.hidden@, query: self.query@ }
    }
}

/// Outcomes that are being shown: those before `next` are shown in
/// `rendered`. `closing` is the session to close when all are.
#[derive(Clone, Debug, PartialEq, Eq)]
pub struct RenderJob {
    pub outcomes: Vec<Outcome>,
    pub next: usize,
    pub rendered: Vec<String>,
    pub closing: Option<Session>,
}

/// The mathematical content of a [`RenderJob`].
pub struct RenderJobView {
    pub outcomes: Seq<Outcome>,
    pub next: int,
    pub rendered: Seq<Seq<char>>,
    pub closing: Option<Session>,
}

impl View for RenderJob {
    type V = RenderJobView;

    open spec fn view(&self) -> RenderJobView {
        RenderJobView {
            outcomes: self.outcomes@,
            next: self.next as int,
            rendered: texts(self.rendered@),
            closing: self.closing,
        }
    }
}

/// The outcomes of one attempt of a wait that are being checked: those
/// before `next` are resolved in `resolved`.
#[derive(Debug, PartialEq, Eq)]
pub struct CheckJob {
    pub wait: WaitJob,
    pub outcomes: Vec<Outcome>,
    pub next: usize,
    pub resolved: Vec<Resolved>,
}

/// The mathematical content of a [`CheckJob`].
pub struct CheckJobView {
    pub wait: WaitJobView,
    pub outcomes: Seq<Outcome>,
    pub next: int,
    pub resolved: Seq<Resolved>,
}

impl View for CheckJob {
    type V = CheckJobView;

    open spec fn view(&self) -> CheckJobView {
        CheckJobView {
            wait: self.wait@,
            outcomes: self.outcomes@,
            next: self.next as int,
            resolved: self.resolved@,
        }
    }
}

/// The work for which rows are awaited.
#[derive(Debug, PartialEq, Eq)]
pub enum PeekJob {
    Render(RenderJob),
    Check(CheckJob),
}

/// The mathematical content of a [`PeekJob`].
pub enum PeekJobView {
    Render(RenderJobView),
    Check(CheckJobView),
}

impl View for PeekJob {
    type V = PeekJobView;

    open spec fn view(&self) -> PeekJobView {
        match *self {
            PeekJob::Render(job) => PeekJobView::Render(job@),
            PeekJob::Check(job) => PeekJobView::Check(job@),
        }
    }
}

/// The directive for which a snapshot of the catalog is taken.
#[derive(Clone, Debug, PartialEq, Eq)]
pub enum SnapshotGoal {
    WaitSql { exclude_uppers: Vec<String>, query: String },
    UpdateUpper { body: String },
    PrintCatalog,
}

/// The mathematical content of a [`SnapshotGoal`].
pub enum SnapshotGoalView {
    WaitSql { exclude_uppers: Seq<Seq<char>>, query: Seq<char> },
    UpdateUpper { body: Seq<char> },
    PrintCatalog,
}

impl View for SnapshotGoal {
    type V = SnapshotGoalView;

    open spec fn view(&self) -> SnapshotGoalView {
        match *self {
            SnapshotGoal::WaitSql { exclude_uppers, query } => SnapshotGoalView::WaitSql {
                exclude_uppers: texts(exclude_uppers@),
                query: query@,
            },
            SnapshotGoal::UpdateUpper { body } => SnapshotGoalView::UpdateUpper { body: body@ },
            SnapshotGoal::PrintCatalog => SnapshotGoalView::PrintCatalog,
        }
    }
}

/// The directive for which a batch of statements runs.
#[derive(Debug, PartialEq, Eq)]
pub enum RunGoal {
    /// `sql`: the session ends with the directive.
    Sql,
    /// One attempt of `wait-sql`: the session ends with the attempt.
    WaitSql(WaitJob),
    /// `async-sql`: the session is stored under this name.
    AsyncSql { session: String },
}

/// The mathematical content of a [`RunGoal`].
pub enum RunGoalView {
    Sql,
    WaitSql(WaitJobView),
    AsyncSql { session: Seq<char> },
}

impl View for RunGoal {
    type V = RunGoalView;

    open spec fn view(&self) -> RunGoalView {
        match *self {
            RunGoal::Sql => RunGoalView::Sql,
            RunGoal::WaitSql(job) => RunGoalView::WaitSql(job@),
            RunGoal::AsyncSql { session } => RunGoalView::AsyncSql { session: session@ },
        }
    }
}

/// What the directive in work waits for, and what it has still to do.
#[derive(Debug)]
#[allow(inconsistent_fields)]
pub enum Phase {
    /// No directive is in work.
    Idle,
    /// The run is over.
    Halted,
    /// A snapshot: the session for it is being opened.
    SnapshotConnecting { goal: SnapshotGoal },
    /// A snapshot: the catalog is being dumped.
    SnapshotDumping { session: Session, goal: SnapshotGoal },
    /// A snapshot: its session is being closed.
    SnapshotClosing { catalog: Catalog, rendering: String, goal: SnapshotGoal },
    /// A wait: the time is being noted.
    WaitTimer { job: WaitJob },
    /// A wait: the arrivals before an attempt are being taken.
    WaitReceiving { job: WaitJob },
    /// A wait: what is not hidden is being delivered.
    WaitDelivering { job: WaitJob },
    /// A wait: the time is being read after a failed attempt.
    WaitTiming { job: WaitJob, failure: WaitFailure },
    /// A batch: its session is being opened.
    RunConnecting { query: String, goal: RunGoal },
    /// A batch: its statements are being parsed.
    RunParsing { session: Session, goal: RunGoal },
    /// A batch: a request is with the coordinator.
    RunBatch { session: Session, batch: StatementBatch, goal: RunGoal },
    /// A batch: its session is being closed.
    RunClosing { result: Result<Vec<Outcome>, crate::batch::BatchError>, goal: RunGoal },
    /// Rows are being polled.
    Polling { job: PeekJob },
    /// Rows were not ready: the arrivals are being taken.
    PeekReceiving { job: PeekJob },
    /// Rows were not ready: the answers to peeks are being delivered.
    PeekDelivering { job: PeekJob },
    /// The outcomes of a named session are shown: it is being closed.
    RenderClosing { rendered: Vec<String> },
    /// A cancellation: the session that carries it is being opened.
    CancelConnecting { target: Session },
    /// A cancellation: the request is being made.
    CancelRequesting { via: Session },
    /// A cancellation: the session that carried it is being closed.
    CancelClosing,
    /// An upper is being injected.
    Injecting,
    /// A fixture file is being written.
    Writing,
}

/// The mathematical content of a [`Phase`].
#[allow(inconsistent_fields)]
pub enum PhaseView {
    Idle,
    Halted,
    SnapshotConnecting { goal: SnapshotGoalView },
    SnapshotDumping { session: Session, goal: SnapshotGoalView },
    SnapshotClosing { databases: Seq<Database>, rendering: Seq<char>, goal: SnapshotGoalView },
    WaitTimer { job: WaitJobView },
    WaitReceiving { job: WaitJobView },
    WaitDelivering { job: WaitJobView },
    WaitTiming { job: WaitJobView, failure: WaitFailure },
    RunConnecting { query: Seq<char>, goal: RunGoalView },
    RunParsing { session: Session, goal: RunGoalView },
    RunBatch { session: Session, batch: BatchState, goal: RunGoalView },
    RunClosing { result: Result<Seq<Outcome>, crate::batch::BatchError>, goal: RunGoalView },
    Polling { job: PeekJobView },
    PeekReceiving { job: PeekJobView },
    PeekDelivering { job: PeekJobView },
    RenderClosing { rendered: Seq<Seq<char>> },
    CancelConnecting { target: Session },
    CancelRequesting { via: Session },
    CancelClosing,
    Injecting,
    Writing,
}

impl View for Phase {
    type V = PhaseView;

    open spec fn view(&self) -> PhaseView {
        match *self {
            Phase::Idle => PhaseView::Idle,
            Phase::Halted => PhaseView::Halted,
            Phase::SnapshotConnecting { goal } => PhaseView::SnapshotConnecting { goal: goal@ },
            Phase::SnapshotDumping { session, goal } => PhaseView::SnapshotDumping {
                session,
                goal: goal@,
            },
            Phase::SnapshotClosing { catalog, rendering, goal } => PhaseView::SnapshotClosing {
                databases: catalog.databases@,
                rendering: rendering@,
                goal: goal@,
            },
            Phase::WaitTimer { job } => PhaseView::WaitTimer { job: job@ },
            Phase::WaitReceiving { job } => PhaseView::WaitReceiving { job: job@ },
            Phase::WaitDelivering { job } => PhaseView::WaitDelivering { job: job@ },
            Phase::WaitTiming { job, failure } => PhaseView::WaitTiming { job: job@, failure },
            Phase::RunConnecting { query, goal } => PhaseView::RunConnecting {
                query: query@,
                goal: goal@,
            },
            Phase::RunParsing { session, goal } => PhaseView::RunParsing { session, goal: goal@ },
            Phase::RunBatch { session, batch, goal } => PhaseView::RunBatch {
                session,
                batch: batch@,
                goal: goal@,
            },
            Phase::RunClosing { result, goal } => PhaseView::RunClosing {
                result: match result {
                    Ok(outcomes) => Ok(outcomes@),
                    Err(e) => Err(e),
                },
                goal: goal@,
            },
            Phase::Polling { job } => PhaseView::Polling { job: job@ },
            Phase::PeekReceiving { job } => PhaseView::PeekReceiving { job: job@ },
            Phase::PeekDelivering { job } => PhaseView::PeekDelivering { job: job@ },
            Phase::RenderClosing { rendered } => PhaseView::RenderClosing {
                rendered: texts(rendered@),
            },
            Phase::CancelConnecting { target } => PhaseView::CancelConnecting { target },
            Phase::CancelRequesting { via } => PhaseView::CancelRequesting { via },
            Phase::CancelClosing => PhaseView::CancelClosing,
            Phase::Injecting => PhaseView::Injecting,
            Phase::Writing => PhaseView::Writing,
        }
    }
}

} // verus!
