//! The protocol by which a batch of statements runs in one session.
//!
//! The text has been parsed into statements before the batch begins; a text
//! that does not parse runs nothing. Each statement gets three requests in
//! turn: start a transaction that is scoped to the number of statements in
//! the batch, bind the statement as the unnamed prepared statement without
//! parameters, execute it. When all have run, the transaction is committed.
//! The first request that fails ends the batch with its error: nothing runs
//! after it and nothing is committed.

use vstd::prelude::*;

verus! {

/// What the coordinator answers to a statement.
#[derive(Clone, Debug, PartialEq, Eq)]
pub enum Outcome {
    /// Rows will come; the number stands for the batch that is awaited.
    SendingRows(u64),
    /// Any other answer, in the text that shows it.
    Response(String),
}

/// A request to the coordinator in the course of a batch.
#[derive(Clone, Copy, Debug, PartialEq, Eq)]
pub enum BatchOp {
    StartTransaction { statements: usize },
    Declare { statement: usize },
    Execute { statement: usize },
    Commit,
}

/// What came back for a request.
#[derive(Clone, Debug, PartialEq, Eq)]
pub enum BatchReply {
    /// The request was carried out and has nothing to show.
    Done,
    /// The statement was executed, with this outcome.
    Executed(Outcome),
    /// The request failed, with this message.
    Failed(String),
}

/// Why a batch ended without its outcomes.
#[derive(Clone, Debug, PartialEq, Eq)]
pub enum BatchError {
    /// The text is not a sequence of statements.
    ParseError(String),
    /// A request failed.
    ExecutionError(String),
    /// The reply does not answer the request that was made.
    UnexpectedReply,
}

/// How a batch goes on.
#[derive(Debug, PartialEq, Eq)]
pub enum BatchStep {
    /// Make this request and hand its reply to [`StatementBatch::reply`].
    Request(BatchOp),
    /// The batch has ended.
    Finished(Result<Vec<Outcome>, BatchError>),
}

/// The request that a batch is waiting on.
#[derive(Clone, Copy, Debug, PartialEq, Eq)]
pub enum Phase {
    Starting,
    Declaring,
    Executing,
    Committing,
    Finished,
}

/// A batch of statements under way.
#[derive(Debug)]
pub struct StatementBatch {
    statements: usize,
    phase: Phase,
    outcomes: Vec<Outcome>,
}

/// The mathematical content of a [`StatementBatch`]: how many statements it
/// has, which request it waits on, and the outcomes collected so far. The
/// statement in turn is the one after those that have an outcome.
pub struct BatchState {
    pub statements: nat,
    pub phase: Phase,
    pub outcomes: Seq<Outcome>,
}

/// The first step of a batch of `parsed` statements.
pub open spec fn batch_begin(parsed: Result<usize, String>) -> (BatchState, BatchStep) {
    match parsed {
        Err(e) => (
            BatchState { statements: 0, phase: Phase::Finished, outcomes: Seq::empty() },
            BatchStep::Finished(Err(BatchError::ParseError(e))),
        ),
        Ok(n) => if n == 0 {
            (
                BatchState { statements: 0, phase: Phase::Committing, outcomes: Seq::empty() },
                BatchStep::Request(BatchOp::Commit),
            )
        } else {
            (
                BatchState { statements: n as nat, phase: Phase::Starting, outcomes: Seq::empty() },
                BatchStep::Request(BatchOp::StartTransaction { statements: n }),
            )
        },
    }
}

/// The state in which a batch has ended.
pub open spec fn ended(state: BatchState) -> BatchState {
    BatchState { phase: Phase::Finished, ..state }
}

/// The state after a reply, and whether the batch goes on with a request or
/// ends. `Ok(None)` stands for the good end, at which the batch hands out the
/// outcomes that it has collected; `Err` for an end without outcomes.
pub open spec fn batch_next(state: BatchState, reply: BatchReply) -> (
    BatchState,
    Result<Option<BatchOp>, BatchError>,
) {
    let turn = state.outcomes.len() as usize;
    match state.phase {
        Phase::Starting => (
            BatchState { phase: Phase::Declaring, ..state },
            Ok(Some(BatchOp::Declare { statement: turn })),
        ),
        Phase::Declaring => match reply {
            BatchReply::Done => (
                BatchState { phase: Phase::Executing, ..state },
                Ok(Some(BatchOp::Execute { statement: turn })),
            ),
            BatchReply::Failed(e) => (ended(state), Err(BatchError::ExecutionError(e))),
            BatchReply::Executed(_) => (ended(state), Err(BatchError::UnexpectedReply)),
        },
        Phase::Executing => match reply {
            BatchReply::Executed(outcome) => {
                let outcomes = state.outcomes.push(outcome);
                if outcomes.len() < state.statements {
                    (
                        BatchState { phase: Phase::Starting, outcomes, ..state },
                        Ok(
                            Some(
                                BatchOp::StartTransaction { statements: state.statements as usize },
                            ),
                        ),
                    )
                } else {
                    (
                        BatchState { phase: Phase::Committing, outcomes, ..state },
                        Ok(Some(BatchOp::Commit)),
                    )
                }
            },
            BatchReply::Failed(e) => (ended(state), Err(BatchError::ExecutionError(e))),
            BatchReply::Done => (ended(state), Err(BatchError::UnexpectedReply)),
        },
        Phase::Committing => match reply {
            BatchReply::Done => (
                BatchState { phase: Phase::Finished, outcomes: Seq::empty(), ..state },
                Ok(None),
            ),
            BatchReply::Failed(e) => (ended(state), Err(BatchError::ExecutionError(e))),
            BatchReply::Executed(_) => (ended(state), Err(BatchError::UnexpectedReply)),
        },
        Phase::Finished => (state, Err(BatchError::UnexpectedReply)),
    }
}

/// Whether a step is the one that the protocol prescribes: the request to
/// make, the error to end with, or the outcomes collected.
pub open spec fn step_is(
    step: BatchStep,
    prescribed: Result<Option<BatchOp>, BatchError>,
    collected: Seq<Outcome>,
) -> bool {
    match prescribed {
        Ok(Some(op)) => step == BatchStep::Request(op),
        Ok(None) => step matches BatchStep::Finished(Ok(outcomes)) && outcomes@ == collected,
        Err(e) => step == BatchStep::Finished(Err(e)),
    }
}

/// Whether a state can come up in the course of a batch.
pub open spec fn batch_in_order(state: BatchState) -> bool {
    &&& state.statements <= usize::MAX
    &&& state.outcomes.len() <= state.statements
    &&& (state.phase is Starting || state.phase is Declaring || state.phase is Executing)
        ==> state.outcomes.len() < state.statements
    &&& state.phase is Committing ==> state.outcomes.len() == state.statements
}

/// A batch keeps to its order, commits only when every statement has its
/// outcome, and ends well only from a commit.
pub proof fn lemma_batch_commits_last(state: BatchState, reply: BatchReply)
    requires
        batch_in_order(state),
    ensures
        batch_in_order(batch_next(state, reply).0),
        batch_next(state, reply).1 == Ok::<Option<BatchOp>, BatchError>(Some(BatchOp::Commit))
            ==> batch_next(state, reply).0.outcomes.len() == state.statements,
        batch_next(state, reply).1 == Ok::<Option<BatchOp>, BatchError>(None) ==> state.phase
            is Committing && state.outcomes.len() == state.statements,
        batch_next(state, reply).1 is Err ==> batch_next(state, reply).0.phase is Finished,
{
}

impl StatementBatch {
    /// The state of the batch.
    pub closed spec fn view(&self) -> BatchState {
        BatchState {
            statements: self.statements as nat,
            phase: self.phase,
            outcomes: self.outcomes@,
        }
    }

    /// Begins a batch of `parsed` statements, or ends it at once where the
    /// text did not parse.
    pub fn begin(parsed: Result<usize, String>) -> (begun: (Self, BatchStep))
        ensures
            (begun.0@, begun.1) == batch_begin(parsed),
            batch_in_order(begun.0@),
    {
        match parsed {
            Err(e) => (
                StatementBatch { statements: 0, phase: Phase::Finished, outcomes: Vec::new() },
                BatchStep::Finished(Err(BatchError::ParseError(e))),
            ),
            Ok(n) => if n == 0 {
                (
                    StatementBatch {
                        statements: 0,
                        phase: Phase::Committing,
                        outcomes: Vec::new(),
                    },
                    BatchStep::Request(BatchOp::Commit),
                )
            } else {
                (
                    StatementBatch { statements: n, phase: Phase::Starting, outcomes: Vec::new() },
                    BatchStep::Request(BatchOp::StartTransaction { statements: n }),
                )
            },
        }
    }

    /// Takes the reply to the request that was made last and says how the
    /// batch goes on.
    ///
    /// The reply to the start of a transaction is not looked at. A failure
    /// of any other request ends the batch with its message. The batch ends
    /// with its outcomes, one for each statement and in their order, when
    /// the commit has been carried out.
    pub fn reply(&mut self, reply: BatchReply) -> (step: BatchStep)
        requires
            batch_in_order(old(self)@),
        ensures
            final(self)@ == batch_next(old(self)@, reply).0,
            step_is(step, batch_next(old(self)@, reply).1, old(self)@.outcomes),
            batch_in_order(final(self)@),
            step matches BatchStep::Finished(Ok(outcomes)) ==> outcomes@.len() == old(
                self,
            )@.statements,
    {
        let turn = self.outcomes.len();
        match self.phase {
            Phase::Starting => {
                self.phase = Phase::Declaring;
                BatchStep::Request(BatchOp::Declare { statement: turn })
            },
            Phase::Declaring => match reply {
                BatchReply::Done => {
                    self.phase = Phase::Executing;
                    BatchStep::Request(BatchOp::Execute { statement: turn })
                },
                BatchReply::Failed(e) => {
                    self.phase = Phase::Finished;
                    BatchStep::Finished(Err(BatchError::ExecutionError(e)))
                },
                BatchReply::Executed(_) => {
                    self.phase = Phase::Finished;
                    BatchStep::Finished(Err(BatchError::UnexpectedReply))
                },
            },
            Phase::Executing => match reply {
                BatchReply::Executed(outcome) => {
                    self.outcomes.push(outcome);
                    if self.outcomes.len() < self.statements {
                        self.phase = Phase::Starting;
                        BatchStep::Request(
                            BatchOp::StartTransaction { statements: self.statements },
                        )
                    } else {
                        self.phase = Phase::Committing;
                        BatchStep::Request(BatchOp::Commit)
                    }
                },
                BatchReply::Failed(e) => {
                    self.phase = Phase::Finished;
                    BatchStep::Finished(Err(BatchError::ExecutionError(e)))
                },
                BatchReply::Done => {
                    self.phase = Phase::Finished;
                    BatchStep::Finished(Err(BatchError::UnexpectedReply))
                },
            },
            Phase::Committing => match reply {
                BatchReply::Done => {
                    self.phase = Phase::Finished;
                    let mut outcomes: Vec<Outcome> = Vec::new();
                    std::mem::swap(&mut outcomes, &mut self.outcomes);
                    BatchStep::Finished(Ok(outcomes))
                },
                BatchReply::Failed(e) => {
                    self.phase = Phase::Finished;
                    BatchStep::Finished(Err(BatchError::ExecutionError(e)))
                },
                BatchReply::Executed(_) => {
                    self.phase = Phase::Finished;
                    BatchStep::Finished(Err(BatchError::UnexpectedReply))
                },
            },
            Phase::Finished => BatchStep::Finished(Err(BatchError::UnexpectedReply)),
        }
    }
}

} // verus!
