use coordtest::batch::{BatchOp, BatchReply, Outcome};
use coordtest::catalog::{Catalog, Database, Item, Schema};
use coordtest::directive::Violation;
use coordtest::feedback::{Feedback, FeedbackMessage};
use coordtest::peek::{Datum, PeekResult};
use coordtest::future::Polled;
use coordtest::harness::CoordTest;
use coordtest::protocol::{Action, Event, Fatal, Resolution};
use coordtest::session::{NotFound, Session};
use coordtest::uppers::UpperError;
use coordtest::wait::WaitFailure;
use timely::progress::ChangeBatch;

type Harness = CoordTest<PeekResult>;
type Message = FeedbackMessage<PeekResult>;

fn harness() -> Harness {
    CoordTest::new("/tmp/ct".to_string())
}

fn arg(name: &str, values: &[&str]) -> (String, Vec<String>) {
    (name.to_string(), values.iter().map(|v| v.to_string()).collect())
}

fn catalog() -> Catalog {
    Catalog {
        databases: vec![Database {
            name: "db".to_string(),
            schemas: vec![Schema {
                name: "public".to_string(),
                items: vec![
                    Item { name: "t".to_string(), id: 11 },
                    Item { name: "u".to_string(), id: 12 },
                ],
            }],
        }],
    }
}

fn dumped() -> Event<PeekResult> {
    Event::Dumped { catalog: catalog(), rendering: "Catalog(..)".to_string() }
}

fn rows(result: PeekResult, rendering: &str) -> Event<PeekResult> {
    Event::Polled(Polled::Ready(Resolution { result, rendering: rendering.to_string() }))
}

fn truth(value: bool) -> Event<PeekResult> {
    let datum = if value { Datum::True } else { Datum::False };
    rows(PeekResult::Rows(vec![vec![datum]]), "rows")
}

fn uppers(entries: Vec<(u64, ChangeBatch<u64>)>) -> Message {
    FeedbackMessage { worker_id: 0, feedback: Feedback::FrontierUppers(entries) }
}

fn peek(conn: u32) -> Message {
    FeedbackMessage { worker_id: 0, feedback: Feedback::PeekResponse(conn, PeekResult::Canceled) }
}

/// Hands the events to the harness one by one and gives the actions that
/// answer them.
fn feed(ct: &mut Harness, events: Vec<Event<PeekResult>>) -> Vec<Action<PeekResult>> {
    events.into_iter().map(|e| ct.handle(e)).collect()
}

/// The events of a batch of statements that all succeed, after the
/// session is opened: parsed, then for each statement the start of a
/// transaction, the declaration and the execution, then the commit.
fn batch_events(outcomes: Vec<Outcome>) -> Vec<Event<PeekResult>> {
    let mut events = vec![Event::Parsed(Ok(outcomes.len()))];
    for outcome in outcomes {
        events.push(Event::Replied(BatchReply::Done));
        events.push(Event::Replied(BatchReply::Done));
        events.push(Event::Replied(BatchReply::Executed(outcome)));
    }
    events.push(Event::Replied(BatchReply::Done));
    events
}

#[test]
fn sql_runs_in_a_session_that_it_closes() {
    let mut ct = harness();
    let session = Session { conn_id: 1, secret_key: 2 };
    assert_eq!(ct.start("sql", &vec![], "SELECT '<TEMP>'; SELECT 2"), Action::Connect);
    assert_eq!(
        ct.handle(Event::Connected(session)),
        Action::Parse { query: "SELECT '/tmp/ct'; SELECT 2".to_string() }
    );
    let actions = feed(
        &mut ct,
        batch_events(vec![Outcome::Response("one".to_string()), Outcome::SendingRows(9)]),
    );
    assert_eq!(
        actions,
        vec![
            Action::Batch { session, op: BatchOp::StartTransaction { statements: 2 } },
            Action::Batch { session, op: BatchOp::Declare { statement: 0 } },
            Action::Batch { session, op: BatchOp::Execute { statement: 0 } },
            Action::Batch { session, op: BatchOp::StartTransaction { statements: 2 } },
            Action::Batch { session, op: BatchOp::Declare { statement: 1 } },
            Action::Batch { session, op: BatchOp::Execute { statement: 1 } },
            Action::Batch { session, op: BatchOp::Commit },
            Action::Terminate { session },
        ]
    );
    assert_eq!(ct.handle(Event::Done), Action::Poll { ticket: 9 });
    assert_eq!(ct.handle(Event::Polled(Polled::Pending)), Action::Receive);
    let queued = uppers(vec![(11, ChangeBatch::new_from(3, 1))]);
    assert_eq!(
        ct.handle(Event::Arrived(vec![queued.clone(), peek(1)])),
        Action::Deliver { messages: vec![peek(1)] }
    );
    assert_eq!(ct.queued_feedback.messages(), &vec![queued]);
    assert_eq!(ct.handle(Event::Done), Action::Poll { ticket: 9 });
    assert_eq!(
        ct.handle(rows(PeekResult::Rows(vec![]), "Rows(\n    [],\n)")),
        Action::Finish { output: "one\nRows(\n    [],\n)\n".to_string() }
    );
    assert_eq!(ct.start("sql", &vec![], ""), Action::Connect);
}

#[test]
fn sql_closes_its_session_when_the_statements_do_not_parse() {
    let mut ct = harness();
    let session = Session { conn_id: 1, secret_key: 2 };
    ct.start("sql", &vec![], "SELEC 1");
    ct.handle(Event::Connected(session));
    assert_eq!(
        ct.handle(Event::Parsed(Err("Expected a keyword".to_string()))),
        Action::Terminate { session }
    );
    assert_eq!(
        ct.handle(Event::Done),
        Action::Fail { fatal: Fatal::ParseError("Expected a keyword".to_string()) }
    );
}

#[test]
fn sql_closes_its_session_when_a_statement_fails() {
    let mut ct = harness();
    let session = Session { conn_id: 1, secret_key: 2 };
    ct.start("sql", &vec![], "SELECT 1; SELECT 1/0; SELECT 3");
    ct.handle(Event::Connected(session));
    let actions = feed(
        &mut ct,
        vec![
            Event::Parsed(Ok(3)),
            Event::Replied(BatchReply::Done),
            Event::Replied(BatchReply::Done),
            Event::Replied(BatchReply::Executed(Outcome::SendingRows(1))),
            Event::Replied(BatchReply::Done),
            Event::Replied(BatchReply::Done),
            Event::Replied(BatchReply::Failed("division by zero".to_string())),
        ],
    );
    assert_eq!(actions.last(), Some(&Action::Terminate { session }));
    assert!(!actions.contains(&Action::Batch { session, op: BatchOp::Commit }));
    assert_eq!(
        ct.handle(Event::Done),
        Action::Fail { fatal: Fatal::ExecutionError("division by zero".to_string()) }
    );
}

#[test]
fn sql_without_statements_shows_nothing() {
    let mut ct = harness();
    let session = Session { conn_id: 1, secret_key: 2 };
    ct.start("sql", &vec![], "");
    ct.handle(Event::Connected(session));
    assert_eq!(
        feed(&mut ct, batch_events(vec![])),
        vec![Action::Batch { session, op: BatchOp::Commit }, Action::Terminate { session }]
    );
    assert_eq!(ct.handle(Event::Done), Action::Finish { output: "".to_string() });
}

#[test]
fn async_sql_then_await_sql_returns_the_outcomes_once() {
    let mut ct = harness();
    let session = Session { conn_id: 4, secret_key: 44 };
    assert_eq!(ct.start("async-sql", &vec![arg("session", &["s"])], "SELECT 1"), Action::Connect);
    ct.handle(Event::Connected(session));
    let actions = feed(
        &mut ct,
        batch_events(vec![Outcome::SendingRows(3), Outcome::Response("Inserted".to_string())]),
    );
    assert_eq!(actions.last(), Some(&Action::Finish { output: "".to_string() }));
    assert!(!actions.contains(&Action::Terminate { session }));
    assert_eq!(ct.sessions.cancel("s"), Ok(session));

    assert_eq!(ct.start("await-sql", &vec![arg("session", &["s"])], ""), Action::Poll { ticket: 3 });
    assert_eq!(ct.handle(truth(true)), Action::Terminate { session });
    assert_eq!(ct.handle(Event::Done), Action::Finish { output: "rows\nInserted\n".to_string() });

    assert_eq!(
        ct.start("await-sql", &vec![arg("session", &["s"])], ""),
        Action::Fail { fatal: Fatal::NotFound(NotFound::UnknownSession) }
    );
}

#[test]
fn await_sql_of_immediate_outcomes_closes_the_session_at_once() {
    let mut ct = harness();
    let session = Session { conn_id: 4, secret_key: 44 };
    ct.start("async-sql", &vec![arg("session", &["s"])], "CREATE TABLE t (a int)");
    ct.handle(Event::Connected(session));
    feed(&mut ct, batch_events(vec![Outcome::Response("CreatedTable".to_string())]));
    assert_eq!(
        ct.start("await-sql", &vec![arg("session", &["s"])], ""),
        Action::Terminate { session }
    );
    assert_eq!(ct.handle(Event::Done), Action::Finish { output: "CreatedTable\n".to_string() });
}

#[test]
fn async_sql_refuses_a_name_in_use() {
    let mut ct = harness();
    ct.sessions.persist("s".to_string(), Session { conn_id: 1, secret_key: 1 }).unwrap();
    ct.start("async-sql", &vec![arg("session", &["s"])], "SELECT 1");
    ct.handle(Event::Connected(Session { conn_id: 2, secret_key: 2 }));
    let actions = feed(&mut ct, batch_events(vec![Outcome::SendingRows(3)]));
    assert_eq!(
        actions.last(),
        Some(&Action::Fail { fatal: Fatal::NotFound(NotFound::NameTaken) })
    );
    assert_eq!(ct.sessions.cancel("s"), Ok(Session { conn_id: 1, secret_key: 1 }));
}

#[test]
fn async_sql_stores_the_session_even_when_a_statement_fails() {
    let mut ct = harness();
    let session = Session { conn_id: 2, secret_key: 2 };
    ct.start("async-sql", &vec![arg("session", &["s"])], "SELECT 1/0");
    ct.handle(Event::Connected(session));
    let actions = feed(
        &mut ct,
        vec![
            Event::Parsed(Ok(1)),
            Event::Replied(BatchReply::Done),
            Event::Replied(BatchReply::Failed("division by zero".to_string())),
        ],
    );
    assert_eq!(
        actions.last(),
        Some(&Action::Fail { fatal: Fatal::ExecutionError("division by zero".to_string()) })
    );
    assert_eq!(ct.sessions.cancel("s"), Ok(session));
}

#[test]
fn async_cancel_of_a_missing_session_is_not_found() {
    let mut ct = harness();
    assert_eq!(
        ct.start("async-cancel", &vec![arg("session", &["missing"])], ""),
        Action::Fail { fatal: Fatal::NotFound(NotFound::UnknownSession) }
    );
}

#[test]
fn async_cancel_goes_through_a_session_of_its_own() {
    let mut ct = harness();
    let target = Session { conn_id: 4, secret_key: 44 };
    let via = Session { conn_id: 5, secret_key: 55 };
    ct.sessions.persist("s".to_string(), target).unwrap();
    assert_eq!(ct.start("async-cancel", &vec![arg("session", &["s"])], ""), Action::Connect);
    assert_eq!(
        ct.handle(Event::Connected(via)),
        Action::Cancel { via, conn_id: 4, secret_key: 44 }
    );
    assert_eq!(ct.handle(Event::Done), Action::Terminate { session: via });
    assert_eq!(ct.handle(Event::Done), Action::Finish { output: "".to_string() });
    assert_eq!(ct.sessions.cancel("s"), Ok(target));
}

fn snapshot(ct: &mut Harness) {
    let session = Session { conn_id: 100, secret_key: 0 };
    assert_eq!(ct.handle(Event::Connected(session)), Action::DumpCatalog { session });
    assert_eq!(ct.handle(dumped()), Action::Terminate { session });
}

#[test]
fn update_upper_injects_past_the_queue() {
    let mut ct = harness();
    let held = uppers(vec![(12, ChangeBatch::new_from(1, 1))]);
    ct.queued_feedback.drain(vec![held.clone()]);
    assert_eq!(ct.start("update-upper", &vec![], "db.public.t 5"), Action::Connect);
    snapshot(&mut ct);
    match ct.handle(Event::Done) {
        Action::Inject { message } => {
            assert_eq!(message.worker_id, 0);
            match message.feedback {
                Feedback::FrontierUppers(entries) => {
                    let entries: Vec<(u64, Vec<(u64, i64)>)> =
                        entries.into_iter().map(|(id, b)| (id, b.into_inner())).collect();
                    assert_eq!(entries, vec![(11, vec![(0, -1), (5, 1)])]);
                }
                Feedback::PeekResponse(..) => panic!("expected a progress report"),
            }
        }
        other => panic!("expected an injection, got {:?}", other),
    }
    assert_eq!(ct.uppers.get(11), 5);
    assert_eq!(ct.queued_feedback.messages(), &vec![held]);
    assert_eq!(ct.handle(Event::Done), Action::Finish { output: "".to_string() });

    ct.start("update-upper", &vec![], "db.public.t 3");
    snapshot(&mut ct);
    assert_eq!(
        ct.handle(Event::Done),
        Action::Fail {
            fatal: Fatal::RejectedUpper(UpperError::NotMonotonic { current: 5, given: 3 })
        }
    );
    assert_eq!(ct.uppers.get(11), 5);
}

#[test]
fn update_upper_rejects_a_timestamp_of_one() {
    let mut ct = harness();
    ct.start("update-upper", &vec![], "db.public.t 1");
    snapshot(&mut ct);
    assert_eq!(
        ct.handle(Event::Done),
        Action::Fail { fatal: Fatal::RejectedUpper(UpperError::TooSmall(1)) }
    );
    assert_eq!(ct.uppers.get(11), 0);
}

fn attempt(ct: &mut Harness, session: Session, outcomes: Vec<Outcome>) -> Action<PeekResult> {
    assert_eq!(ct.handle(Event::Arrived(vec![])), Action::Deliver { messages: vec![] });
    assert_eq!(ct.handle(Event::Done), Action::Connect);
    assert_eq!(
        ct.handle(Event::Connected(session)),
        Action::Parse { query: "SELECT count(*) = 2 FROM t".to_string() }
    );
    let actions = feed(ct, batch_events(outcomes));
    assert_eq!(actions.last(), Some(&Action::Terminate { session }));
    ct.handle(Event::Done)
}

#[test]
fn wait_sql_on_true_succeeds_without_retry() {
    let mut ct = harness();
    assert_eq!(ct.start("wait-sql", &vec![], "SELECT count(*) = 2 FROM t"), Action::Connect);
    snapshot(&mut ct);
    assert_eq!(ct.handle(Event::Done), Action::StartTimer);
    assert_eq!(ct.handle(Event::Done), Action::Receive);
    let session = Session { conn_id: 1, secret_key: 1 };
    assert_eq!(attempt(&mut ct, session, vec![Outcome::SendingRows(1)]), Action::Poll { ticket: 1 });
    assert_eq!(ct.handle(truth(true)), Action::Finish { output: "".to_string() });
    assert_eq!(ct.timestamp.get(), 0);
}

#[test]
fn wait_sql_on_false_then_true_advances_the_clock_once() {
    let mut ct = harness();
    ct.start("wait-sql", &vec![], "SELECT count(*) = 2 FROM t");
    snapshot(&mut ct);
    ct.handle(Event::Done);
    ct.handle(Event::Done);
    let first = Session { conn_id: 1, secret_key: 1 };
    assert_eq!(attempt(&mut ct, first, vec![Outcome::SendingRows(1)]), Action::Poll { ticket: 1 });
    assert_eq!(ct.handle(truth(false)), Action::ReadTimer);
    assert_eq!(ct.timestamp.get(), 0);
    assert_eq!(ct.handle(Event::Elapsed { secs: 0, subsec_nanos: 5_000 }), Action::Receive);
    assert_eq!(ct.timestamp.get(), 1);
    let progress = uppers(vec![(11, ChangeBatch::new_from(5, 1))]);
    assert_eq!(
        ct.handle(Event::Arrived(vec![progress.clone()])),
        Action::Deliver { messages: vec![progress] }
    );
    assert_eq!(ct.handle(Event::Done), Action::Connect);
    let second = Session { conn_id: 2, secret_key: 2 };
    ct.handle(Event::Connected(second));
    feed(&mut ct, batch_events(vec![Outcome::SendingRows(2)]));
    assert_eq!(ct.handle(Event::Done), Action::Poll { ticket: 2 });
    assert_eq!(ct.handle(truth(true)), Action::Finish { output: "".to_string() });
    assert_eq!(ct.timestamp.get(), 1);
}

#[test]
fn wait_sql_hides_the_progress_of_excluded_objects() {
    let mut ct = harness();
    ct.start("wait-sql", &vec![arg("exclude-uppers", &["db.public.u"])], "SELECT true");
    snapshot(&mut ct);
    ct.handle(Event::Done);
    assert_eq!(ct.handle(Event::Done), Action::Receive);
    let arrived = vec![
        uppers(vec![(11, ChangeBatch::new_from(3, 1)), (12, ChangeBatch::new_from(4, 1))]),
        peek(9),
    ];
    assert_eq!(
        ct.handle(Event::Arrived(arrived)),
        Action::Deliver {
            messages: vec![uppers(vec![(11, ChangeBatch::new_from(3, 1))]), peek(9)]
        }
    );
    assert_eq!(
        ct.queued_feedback.messages(),
        &vec![uppers(vec![(12, ChangeBatch::new_from(4, 1))])]
    );
}

#[test]
fn wait_sql_fails_on_an_unknown_excluded_object() {
    let mut ct = harness();
    ct.start("wait-sql", &vec![arg("exclude-uppers", &["db.public.x"])], "SELECT true");
    snapshot(&mut ct);
    match ct.handle(Event::Done) {
        Action::Fail { fatal: Fatal::UnresolvedPath(_) } => {}
        other => panic!("expected an unresolved path, got {:?}", other),
    }
}

#[test]
fn wait_sql_gives_up_when_the_time_is_over() {
    let mut ct = harness();
    ct.start("wait-sql", &vec![], "SELECT count(*) = 2 FROM t");
    snapshot(&mut ct);
    ct.handle(Event::Done);
    ct.handle(Event::Done);
    let session = Session { conn_id: 1, secret_key: 1 };
    attempt(&mut ct, session, vec![Outcome::SendingRows(1)]);
    assert_eq!(ct.handle(truth(false)), Action::ReadTimer);
    assert_eq!(ct.handle(Event::Elapsed { secs: 5, subsec_nanos: 0 }), Action::Receive);
    attempt(&mut ct, session, vec![Outcome::SendingRows(2)]);
    assert_eq!(
        ct.handle(rows(PeekResult::Error("no such table".to_string()), "Error")),
        Action::ReadTimer
    );
    assert_eq!(
        ct.handle(Event::Elapsed { secs: 5, subsec_nanos: 1 }),
        Action::Fail {
            fatal: Fatal::Timeout(WaitFailure::PeekError("no such table".to_string()))
        }
    );
    assert_eq!(ct.timestamp.get(), 1);
}

#[test]
fn wait_sql_retries_a_batch_that_fails() {
    let mut ct = harness();
    ct.start("wait-sql", &vec![], "SELECT count(*) = 2 FROM t");
    snapshot(&mut ct);
    ct.handle(Event::Done);
    ct.handle(Event::Done);
    let session = Session { conn_id: 1, secret_key: 1 };
    ct.handle(Event::Arrived(vec![]));
    ct.handle(Event::Done);
    ct.handle(Event::Connected(session));
    assert_eq!(
        ct.handle(Event::Parsed(Err("unknown catalog item".to_string()))),
        Action::Terminate { session }
    );
    assert_eq!(ct.handle(Event::Done), Action::ReadTimer);
    assert_eq!(ct.handle(Event::Elapsed { secs: 1, subsec_nanos: 0 }), Action::Receive);
    assert_eq!(ct.timestamp.get(), 1);
}

#[test]
fn wait_sql_requires_rows() {
    let mut ct = harness();
    ct.start("wait-sql", &vec![], "SELECT count(*) = 2 FROM t");
    snapshot(&mut ct);
    ct.handle(Event::Done);
    ct.handle(Event::Done);
    let session = Session { conn_id: 1, secret_key: 1 };
    assert_eq!(
        attempt(&mut ct, session, vec![Outcome::Response("CreatedTable".to_string())]),
        Action::Fail { fatal: Fatal::ProtocolViolation(Violation::ExpectedRows) }
    );
}

#[test]
fn inc_timestamp_moves_the_clock() {
    let mut ct = harness();
    assert_eq!(
        ct.start("inc-timestamp", &vec![], "5\n"),
        Action::Finish { output: "".to_string() }
    );
    assert_eq!(ct.timestamp.get(), 5);
    assert_eq!(
        ct.start("inc-timestamp", &vec![], "18446744073709551610"),
        Action::Finish { output: "".to_string() }
    );
    assert_eq!(ct.timestamp.get(), u64::MAX);
    assert_eq!(
        ct.start("inc-timestamp", &vec![], "1"),
        Action::Fail { fatal: Fatal::ClockOverflow }
    );
    assert_eq!(ct.timestamp.get(), u64::MAX);
}

#[test]
fn file_directives_write_the_body() {
    let mut ct = harness();
    assert_eq!(
        ct.start("create-file", &vec![arg("name", &["a.txt"])], "1\n2\n"),
        Action::WriteFile { name: "a.txt".to_string(), content: "1\n2\n".to_string(), append: false }
    );
    assert_eq!(ct.handle(Event::Done), Action::Finish { output: "".to_string() });
    assert_eq!(
        ct.start("append-file", &vec![arg("name", &["a.txt"])], "3\n"),
        Action::WriteFile { name: "a.txt".to_string(), content: "3\n".to_string(), append: true }
    );
    assert_eq!(ct.handle(Event::Done), Action::Finish { output: "".to_string() });
    assert_eq!(ct.start("sql", &vec![], "COPY t FROM '<TEMP>/a.txt'"), Action::Connect);
    assert_eq!(
        ct.handle(Event::Connected(Session { conn_id: 1, secret_key: 1 })),
        Action::Parse { query: "COPY t FROM '/tmp/ct/a.txt'".to_string() }
    );
}

#[test]
fn print_catalog_shows_the_snapshot() {
    let mut ct = harness();
    assert_eq!(ct.start("print-catalog", &vec![], ""), Action::Connect);
    snapshot(&mut ct);
    assert_eq!(ct.handle(Event::Done), Action::Finish { output: "Catalog(..)\n".to_string() });
}

#[test]
fn bad_records_end_the_run() {
    assert_eq!(
        harness().start("drop-file", &vec![], ""),
        Action::Fail { fatal: Fatal::UnrecognizedDirective }
    );
    assert_eq!(
        harness().start("await-sql", &vec![], ""),
        Action::Fail { fatal: Fatal::ProtocolViolation(Violation::MissingSession) }
    );
    assert_eq!(
        harness().start("inc-timestamp", &vec![], "soon"),
        Action::Fail { fatal: Fatal::ProtocolViolation(Violation::BadNumber) }
    );
}

#[test]
fn the_wrong_event_ends_the_run() {
    let unexpected: Action<PeekResult> = Action::Fail { fatal: Fatal::ProtocolViolation(Violation::UnexpectedEvent) };
    let mut idle = harness();
    assert_eq!(idle.handle(Event::Done), unexpected);
    let mut ct = harness();
    assert_eq!(ct.start("sql", &vec![], "SELECT 1"), Action::Connect);
    assert_eq!(ct.handle(Event::Done), unexpected);
    assert_eq!(ct.handle(Event::Connected(Session { conn_id: 1, secret_key: 1 })), unexpected);
    assert_eq!(ct.start("sql", &vec![], "SELECT 1"), unexpected);
    let mut busy = harness();
    busy.start("sql", &vec![], "SELECT 1");
    assert_eq!(busy.start("sql", &vec![], "SELECT 1"), unexpected);
}

#[test]
fn wait_sql_cannot_retry_when_the_clock_is_at_its_end() {
    let mut ct = harness();
    assert!(ct.timestamp.try_advance(u64::MAX));
    ct.start("wait-sql", &vec![], "SELECT count(*) = 2 FROM t");
    snapshot(&mut ct);
    ct.handle(Event::Done);
    ct.handle(Event::Done);
    let session = Session { conn_id: 1, secret_key: 1 };
    attempt(&mut ct, session, vec![Outcome::SendingRows(1)]);
    assert_eq!(ct.handle(truth(false)), Action::ReadTimer);
    assert_eq!(
        ct.handle(Event::Elapsed { secs: 0, subsec_nanos: 0 }),
        Action::Fail { fatal: Fatal::ClockOverflow }
    );
    assert_eq!(ct.timestamp.get(), u64::MAX);
}

#[test]
fn await_sql_releases_only_answers_to_peeks_while_it_waits() {
    let mut ct = harness();
    let session = Session { conn_id: 4, secret_key: 44 };
    ct.start("async-sql", &vec![arg("session", &["s"])], "SELECT 1; SELECT 2");
    ct.handle(Event::Connected(session));
    feed(&mut ct, batch_events(vec![Outcome::SendingRows(1), Outcome::SendingRows(2)]));
    assert_eq!(ct.start("await-sql", &vec![arg("session", &["s"])], ""), Action::Poll { ticket: 1 });
    assert_eq!(ct.handle(Event::Polled(Polled::Pending)), Action::Receive);
    let progress = uppers(vec![(11, ChangeBatch::new_from(3, 1))]);
    assert_eq!(
        ct.handle(Event::Arrived(vec![peek(1), progress.clone(), peek(2)])),
        Action::Deliver { messages: vec![peek(1), peek(2)] }
    );
    assert_eq!(ct.handle(Event::Done), Action::Poll { ticket: 1 });
    assert_eq!(ct.handle(rows(PeekResult::Canceled, "Canceled")), Action::Poll { ticket: 2 });
    assert_eq!(ct.handle(Event::Polled(Polled::Pending)), Action::Receive);
    assert_eq!(ct.handle(Event::Arrived(vec![])), Action::Deliver { messages: vec![] });
    assert_eq!(ct.handle(Event::Done), Action::Poll { ticket: 2 });
    assert_eq!(
        ct.handle(rows(PeekResult::Rows(vec![]), "Rows([])")),
        Action::Terminate { session }
    );
    assert_eq!(
        ct.handle(Event::Done),
        Action::Finish { output: "Canceled\nRows([])\n".to_string() }
    );
    assert_eq!(ct.queued_feedback.messages(), &vec![progress]);
}

#[test]
fn wait_sql_checks_every_statement() {
    let mut ct = harness();
    ct.start("wait-sql", &vec![], "SELECT count(*) = 2 FROM t");
    snapshot(&mut ct);
    ct.handle(Event::Done);
    ct.handle(Event::Done);
    let session = Session { conn_id: 1, secret_key: 1 };
    assert_eq!(
        attempt(&mut ct, session, vec![Outcome::SendingRows(1), Outcome::SendingRows(2)]),
        Action::Poll { ticket: 1 }
    );
    assert_eq!(ct.handle(truth(false)), Action::Poll { ticket: 2 });
    assert_eq!(ct.handle(truth(true)), Action::ReadTimer);
    assert_eq!(ct.handle(Event::Elapsed { secs: 2, subsec_nanos: 0 }), Action::Receive);
    assert_eq!(
        attempt(&mut ct, session, vec![Outcome::SendingRows(3), Outcome::SendingRows(4)]),
        Action::Poll { ticket: 3 }
    );
    assert_eq!(ct.handle(truth(true)), Action::Poll { ticket: 4 });
    assert_eq!(ct.handle(truth(true)), Action::Finish { output: "".to_string() });
    assert_eq!(ct.timestamp.get(), 1);
}
