use coordtest::future::{
    dev_null, DevNull, Drain, DrainStep, Either3, Enqueue, EnqueueStep, MaybeFuture, OreFutureExt,
    OreStreamExt, Polled, SpawnIfCanceled, TryRecv,
};
use futures::executor::block_on;
use futures::future::{ready, Ready};

#[test]
fn either3_wraps_a_future_as_one_of_three() {
    let a: Either3<Ready<u8>, Ready<u8>, Ready<u8>> = ready(1).either_a();
    let b: Either3<Ready<u8>, Ready<u8>, Ready<u8>> = ready(2).either_b();
    let c: Either3<Ready<u8>, Ready<u8>, Ready<u8>> = ready(3).either_c();
    match a {
        Either3::A(f) => assert_eq!(block_on(f), 1),
        _ => panic!("expected the first variant"),
    }
    match b {
        Either3::B(f) => assert_eq!(block_on(f), 2),
        _ => panic!("expected the second variant"),
    }
    match c {
        Either3::C(f) => assert_eq!(block_on(f), 3),
        _ => panic!("expected the third variant"),
    }
}

#[test]
fn spawn_if_canceled_hands_on_an_unfinished_future() {
    let mut wrapped: SpawnIfCanceled<Ready<u8>> = ready(5).spawn_if_canceled();
    assert_eq!(wrapped.describe(), "Some(<future>)");
    assert_eq!(wrapped.polled::<u8>(Polled::Pending), Polled::Pending);
    assert_eq!(wrapped.describe(), "Some(<future>)");
    let unfinished = wrapped.canceled();
    assert_eq!(block_on(unfinished.unwrap()), 5);
    assert_eq!(wrapped.describe(), "None");
    assert!(wrapped.canceled().is_none());
}

#[test]
fn spawn_if_canceled_lets_go_of_a_finished_future() {
    let mut wrapped: SpawnIfCanceled<Ready<u8>> = ready(5).spawn_if_canceled();
    assert_eq!(wrapped.polled(Polled::Ready(5u8)), Polled::Ready(5));
    assert_eq!(wrapped.describe(), "None");
    assert!(wrapped.canceled().is_none());
}

#[test]
fn drain_discards_items_until_the_stream_ends() {
    let draining: Drain<Vec<u8>> = vec![1u8, 2].drain();
    assert_eq!(draining.polled(Polled::Ready(Some(1u8))), DrainStep::Again);
    assert_eq!(draining.polled(Polled::Ready(Some(2u8))), DrainStep::Again);
    assert_eq!(draining.polled::<u8>(Polled::Pending), DrainStep::Pending);
    assert_eq!(draining.polled::<u8>(Polled::Ready(None)), DrainStep::Done);
    assert_eq!(draining.0, vec![1, 2]);
}

#[test]
fn try_recv_takes_the_end_of_the_stream_for_an_error() {
    assert_eq!(
        TryRecv::new("unexpected eof").polled(Polled::Ready(Some(Ok(4u8)))),
        Polled::Ready(Ok(4))
    );
    assert_eq!(
        TryRecv::new("unexpected eof").polled::<u8>(Polled::Ready(Some(Err("broken")))),
        Polled::Ready(Err("broken"))
    );
    assert_eq!(
        TryRecv::new("unexpected eof").polled::<u8>(Polled::Ready(None)),
        Polled::Ready(Err("unexpected eof"))
    );
    assert_eq!(TryRecv::new("unexpected eof").polled::<u8>(Polled::Pending), Polled::Pending);
}

#[test]
fn enqueue_sends_its_item_once_the_sink_is_ready() {
    let mut enqueue = Enqueue::new(7u8);
    assert!(enqueue.holds_item());
    assert_eq!(enqueue.polled::<&str>(Polled::Pending), EnqueueStep::Pending);
    assert!(enqueue.holds_item());
    assert_eq!(enqueue.polled::<&str>(Polled::Ready(Ok(()))), EnqueueStep::Send(7));
    assert!(!enqueue.holds_item());
    assert_eq!(enqueue.polled::<&str>(Polled::Pending), EnqueueStep::Ready(Ok(())));
    assert_eq!(enqueue.polled::<&str>(Polled::Ready(Err("late"))), EnqueueStep::Ready(Ok(())));
}

#[test]
fn enqueue_ends_with_the_error_of_the_sink() {
    let mut enqueue = Enqueue::new(7u8);
    assert_eq!(
        enqueue.polled(Polled::Ready(Err("closed"))),
        EnqueueStep::Ready(Err("closed"))
    );
    assert!(!enqueue.holds_item());
}

#[test]
fn dev_null_takes_everything() {
    let sink: DevNull<u8, String> = dev_null();
    assert_eq!(sink.poll_ready(), Polled::Ready(Ok(())));
    assert_eq!(sink.start_send(1), Ok(()));
    assert_eq!(sink.start_send(2), Ok(()));
    assert_eq!(sink.poll_flush(), Polled::Ready(Ok(())));
    assert_eq!(sink.poll_close(), Polled::Ready(Ok(())));
}

#[test]
fn maybe_future_maps_an_immediate_value_at_once() {
    let ready_now: MaybeFuture<u8, Ready<u8>> = MaybeFuture::from(20);
    match ready_now.map(|x| u32::from(x) * 2) {
        MaybeFuture::Immediate(Some(doubled)) => assert_eq!(doubled, 40),
        _ => panic!("expected an immediate value"),
    }
    let taken: MaybeFuture<u8, Ready<u8>> = MaybeFuture::Immediate(None);
    match taken.map(|x| u32::from(x) * 2) {
        MaybeFuture::Immediate(None) => {}
        _ => panic!("expected an immediate value that was taken"),
    }
}

#[test]
fn maybe_future_maps_a_future_when_it_completes() {
    let later: MaybeFuture<u8, Ready<u8>> = MaybeFuture::Future(ready(20));
    match later.map(|x| u32::from(x) * 2) {
        MaybeFuture::Future(mapped) => assert_eq!(block_on(mapped), 40),
        MaybeFuture::Immediate(_) => panic!("expected a future"),
    }
}

#[test]
fn maybe_future_gives_its_immediate_value_once() {
    let mut value: MaybeFuture<u8, Ready<u8>> = MaybeFuture::from(3);
    assert_eq!(value.take_immediate(), Some(3));
    assert_eq!(value.take_immediate(), None);
    let mut later: MaybeFuture<u8, Ready<u8>> = MaybeFuture::Future(ready(3));
    assert_eq!(later.take_immediate(), None);
    match later {
        MaybeFuture::Future(f) => assert_eq!(block_on(f), 3),
        MaybeFuture::Immediate(_) => panic!("expected a future"),
    }
}
