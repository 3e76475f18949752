use coordtest::feedback::{Feedback, FeedbackMessage};
use coordtest::peek::{Datum, PeekResult};
use coordtest::queue::PendingQueue;
use std::collections::HashSet;
use timely::progress::ChangeBatch;

type Message = FeedbackMessage<PeekResult>;

fn uppers(worker_id: usize, entries: Vec<(u64, ChangeBatch<u64>)>) -> Message {
    FeedbackMessage { worker_id, feedback: Feedback::FrontierUppers(entries) }
}

fn peek(conn: u32, result: PeekResult) -> Message {
    FeedbackMessage { worker_id: 0, feedback: Feedback::PeekResponse(conn, result) }
}

fn batch(time: u64, diff: i64) -> ChangeBatch<u64> {
    ChangeBatch::new_from(time, diff)
}

fn entries_of(messages: &[Message]) -> Vec<(u64, ChangeBatch<u64>)> {
    let mut all = vec![];
    for m in messages {
        if let Feedback::FrontierUppers(entries) = &m.feedback {
            for e in entries {
                all.push(e.clone());
            }
        }
    }
    all
}

#[test]
fn drain_keeps_arrival_order() {
    let mut queue: PendingQueue<PeekResult> = PendingQueue::new();
    assert!(queue.messages().is_empty());
    let a = uppers(0, vec![(1, batch(3, 1))]);
    let b = peek(7, PeekResult::Canceled);
    let c = uppers(0, vec![(2, batch(4, 1))]);
    queue.drain(vec![a.clone(), b.clone()]);
    assert_eq!(queue.messages(), &vec![a.clone(), b.clone()]);
    queue.drain(vec![]);
    assert_eq!(queue.messages(), &vec![a.clone(), b.clone()]);
    queue.drain(vec![c.clone()]);
    assert_eq!(queue.messages(), &vec![a, b, c]);
}

#[test]
fn release_excluding_strips_and_requeues_hidden_entries() {
    let mut queue: PendingQueue<PeekResult> = PendingQueue::new();
    let p = peek(9, PeekResult::Rows(vec![vec![Datum::True]]));
    queue.drain(vec![uppers(0, vec![(1, batch(3, 1)), (2, batch(4, 1)), (1, batch(5, 1))])]);
    let hidden: HashSet<u64> = [2].into_iter().collect();
    let delivered = queue.release_excluding(
        vec![p.clone(), uppers(0, vec![(2, batch(6, 1))]), uppers(0, vec![(3, batch(7, -1))])],
        &hidden,
    );
    assert_eq!(
        delivered,
        vec![
            uppers(0, vec![(1, batch(3, 1)), (1, batch(5, 1))]),
            p,
            uppers(0, vec![]),
            uppers(0, vec![(3, batch(7, -1))]),
        ]
    );
    assert_eq!(
        queue.messages(),
        &vec![uppers(0, vec![(2, batch(4, 1))]), uppers(0, vec![(2, batch(6, 1))])]
    );
}

#[test]
fn release_excluding_never_delivers_a_hidden_object() {
    let mut queue: PendingQueue<PeekResult> = PendingQueue::new();
    let hidden: HashSet<u64> = [2, 5].into_iter().collect();
    let arrived = vec![
        uppers(0, vec![(5, batch(1, 1)), (2, batch(2, 1))]),
        uppers(0, vec![(1, batch(3, 1)), (5, batch(4, 1)), (4, batch(5, 1))]),
        peek(1, PeekResult::Canceled),
    ];
    let delivered = queue.release_excluding(arrived, &hidden);
    for (id, _) in entries_of(&delivered) {
        assert!(!hidden.contains(&id));
    }
    for (id, _) in entries_of(queue.messages()) {
        assert!(hidden.contains(&id));
    }
    for m in queue.messages() {
        match &m.feedback {
            Feedback::FrontierUppers(entries) => assert!(!entries.is_empty()),
            Feedback::PeekResponse(..) => panic!("an answer to a peek stayed queued"),
        }
    }
}

#[test]
fn release_excluding_conserves_entries() {
    let mut queue: PendingQueue<PeekResult> = PendingQueue::new();
    let hidden: HashSet<u64> = [2].into_iter().collect();
    let arrived = vec![
        uppers(0, vec![(2, batch(1, 1)), (1, batch(2, 1)), (2, batch(1, 1))]),
        uppers(0, vec![(2, batch(9, -1))]),
        uppers(0, vec![(1, batch(2, 1))]),
    ];
    let mut drained = entries_of(&arrived);
    let delivered = queue.release_excluding(arrived, &hidden);
    let mut after = entries_of(&delivered);
    after.extend(entries_of(queue.messages()));
    let key = |e: &(u64, ChangeBatch<u64>)| (e.0, e.1.clone().into_inner());
    drained.sort_by_key(key);
    after.sort_by_key(key);
    assert_eq!(drained, after);
}

#[test]
fn hidden_entries_reappear_in_a_later_cycle() {
    let mut queue: PendingQueue<PeekResult> = PendingQueue::new();
    let hidden: HashSet<u64> = [2].into_iter().collect();
    let first = queue.release_excluding(
        vec![uppers(0, vec![(2, batch(4, 1)), (1, batch(3, 1))])],
        &hidden,
    );
    assert_eq!(first, vec![uppers(0, vec![(1, batch(3, 1))])]);
    let again = queue.release_excluding(vec![], &hidden);
    assert_eq!(again, vec![uppers(0, vec![])]);
    assert_eq!(queue.messages(), &vec![uppers(0, vec![(2, batch(4, 1))])]);
    let nothing_hidden: HashSet<u64> = HashSet::new();
    let later = queue.release_excluding(vec![uppers(0, vec![(2, batch(5, 1))])], &nothing_hidden);
    assert_eq!(
        later,
        vec![uppers(0, vec![(2, batch(4, 1))]), uppers(0, vec![(2, batch(5, 1))])]
    );
    assert!(queue.messages().is_empty());
}

#[test]
fn release_excluding_keeps_worker_id() {
    let mut queue: PendingQueue<PeekResult> = PendingQueue::new();
    let hidden: HashSet<u64> = [2].into_iter().collect();
    let delivered = queue.release_excluding(vec![uppers(3, vec![(2, batch(4, 1))])], &hidden);
    assert_eq!(delivered, vec![uppers(3, vec![])]);
    assert_eq!(queue.messages(), &vec![uppers(3, vec![(2, batch(4, 1))])]);
}

#[test]
fn release_only_peek_responses_delivers_peeks_in_order() {
    let mut queue: PendingQueue<PeekResult> = PendingQueue::new();
    let report_a = uppers(0, vec![(1, batch(3, 1))]);
    let answer_a = peek(1, PeekResult::Rows(vec![]));
    let report_b = uppers(0, vec![]);
    let answer_b = peek(2, PeekResult::Error("boom".to_string()));
    let answer_c = peek(3, PeekResult::Canceled);
    queue.drain(vec![report_a.clone(), answer_a.clone()]);
    let delivered = queue.release_only_peek_responses(vec![report_b.clone(), answer_b.clone(), answer_c.clone()]);
    assert_eq!(delivered, vec![answer_a, answer_b, answer_c]);
    assert_eq!(queue.messages(), &vec![report_a.clone(), report_b.clone()]);
    let again = queue.release_only_peek_responses(vec![]);
    assert!(again.is_empty());
    assert_eq!(queue.messages(), &vec![report_a, report_b]);
}

#[test]
fn release_only_peek_responses_leaves_no_peek_behind() {
    let mut queue: PendingQueue<PeekResult> = PendingQueue::new();
    let delivered = queue.release_only_peek_responses(vec![
        peek(1, PeekResult::Canceled),
        uppers(0, vec![(1, batch(3, 1))]),
        peek(2, PeekResult::Canceled),
    ]);
    assert!(delivered.iter().all(|m| m.is_peek_response()));
    assert!(queue.messages().iter().all(|m| !m.is_peek_response()));
    assert_eq!(delivered.len() + queue.messages().len(), 3);
}

#[test]
fn empty_cycle_delivers_nothing() {
    let mut queue: PendingQueue<PeekResult> = PendingQueue::new();
    assert!(queue.release_excluding(vec![], &HashSet::new()).is_empty());
    assert!(queue.release_only_peek_responses(vec![]).is_empty());
    assert!(queue.messages().is_empty());
}
