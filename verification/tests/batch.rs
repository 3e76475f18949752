use coordtest::batch::{BatchError, BatchOp, BatchReply, BatchStep, Outcome, StatementBatch};

#[test]
fn batch_runs_each_statement_then_commits() {
    let (mut batch, first) = StatementBatch::begin(Ok(2));
    assert_eq!(first, BatchStep::Request(BatchOp::StartTransaction { statements: 2 }));
    assert_eq!(
        batch.reply(BatchReply::Done),
        BatchStep::Request(BatchOp::Declare { statement: 0 })
    );
    assert_eq!(
        batch.reply(BatchReply::Done),
        BatchStep::Request(BatchOp::Execute { statement: 0 })
    );
    assert_eq!(
        batch.reply(BatchReply::Executed(Outcome::Response("one".to_string()))),
        BatchStep::Request(BatchOp::StartTransaction { statements: 2 })
    );
    assert_eq!(
        batch.reply(BatchReply::Done),
        BatchStep::Request(BatchOp::Declare { statement: 1 })
    );
    assert_eq!(
        batch.reply(BatchReply::Done),
        BatchStep::Request(BatchOp::Execute { statement: 1 })
    );
    assert_eq!(
        batch.reply(BatchReply::Executed(Outcome::SendingRows(7))),
        BatchStep::Request(BatchOp::Commit)
    );
    assert_eq!(
        batch.reply(BatchReply::Done),
        BatchStep::Finished(Ok(vec![
            Outcome::Response("one".to_string()),
            Outcome::SendingRows(7)
        ]))
    );
    assert_eq!(
        batch.reply(BatchReply::Done),
        BatchStep::Finished(Err(BatchError::UnexpectedReply))
    );
}

#[test]
fn batch_that_does_not_parse_runs_nothing() {
    let (mut batch, first) = StatementBatch::begin(Err("syntax error".to_string()));
    assert_eq!(
        first,
        BatchStep::Finished(Err(BatchError::ParseError("syntax error".to_string())))
    );
    assert_eq!(
        batch.reply(BatchReply::Done),
        BatchStep::Finished(Err(BatchError::UnexpectedReply))
    );
}

#[test]
fn batch_without_statements_only_commits() {
    let (mut batch, first) = StatementBatch::begin(Ok(0));
    assert_eq!(first, BatchStep::Request(BatchOp::Commit));
    assert_eq!(batch.reply(BatchReply::Done), BatchStep::Finished(Ok(vec![])));
}

#[test]
fn batch_ignores_the_reply_to_a_transaction_start() {
    let (mut batch, _) = StatementBatch::begin(Ok(1));
    assert_eq!(
        batch.reply(BatchReply::Failed("already in a transaction".to_string())),
        BatchStep::Request(BatchOp::Declare { statement: 0 })
    );
}

#[test]
fn batch_aborts_on_a_failed_declare() {
    let (mut batch, _) = StatementBatch::begin(Ok(2));
    batch.reply(BatchReply::Done);
    assert_eq!(
        batch.reply(BatchReply::Failed("unknown table".to_string())),
        BatchStep::Finished(Err(BatchError::ExecutionError("unknown table".to_string())))
    );
    assert_eq!(
        batch.reply(BatchReply::Done),
        BatchStep::Finished(Err(BatchError::UnexpectedReply))
    );
}

#[test]
fn batch_aborts_on_a_failed_execute_without_commit() {
    let (mut batch, _) = StatementBatch::begin(Ok(2));
    batch.reply(BatchReply::Done);
    batch.reply(BatchReply::Done);
    batch.reply(BatchReply::Executed(Outcome::SendingRows(1)));
    batch.reply(BatchReply::Done);
    batch.reply(BatchReply::Done);
    assert_eq!(
        batch.reply(BatchReply::Failed("division by zero".to_string())),
        BatchStep::Finished(Err(BatchError::ExecutionError("division by zero".to_string())))
    );
}

#[test]
fn batch_reports_a_failed_commit() {
    let (mut batch, _) = StatementBatch::begin(Ok(0));
    assert_eq!(
        batch.reply(BatchReply::Failed("conflict".to_string())),
        BatchStep::Finished(Err(BatchError::ExecutionError("conflict".to_string())))
    );
}

#[test]
fn batch_refuses_replies_of_the_wrong_kind() {
    let (mut batch, _) = StatementBatch::begin(Ok(1));
    batch.reply(BatchReply::Done);
    assert_eq!(
        batch.reply(BatchReply::Executed(Outcome::SendingRows(1))),
        BatchStep::Finished(Err(BatchError::UnexpectedReply))
    );
    let (mut batch, _) = StatementBatch::begin(Ok(1));
    batch.reply(BatchReply::Done);
    batch.reply(BatchReply::Done);
    assert_eq!(
        batch.reply(BatchReply::Done),
        BatchStep::Finished(Err(BatchError::UnexpectedReply))
    );
    let (mut batch, _) = StatementBatch::begin(Ok(0));
    assert_eq!(
        batch.reply(BatchReply::Executed(Outcome::SendingRows(1))),
        BatchStep::Finished(Err(BatchError::UnexpectedReply))
    );
}
