use coordtest::clock::LogicalClock;
use coordtest::harness::CoordTest;

#[test]
fn clock_starts_at_zero() {
    let clock = LogicalClock::new();
    assert_eq!(clock.get(), 0);
}

#[test]
fn clock_advances_by_delta() {
    let mut clock = LogicalClock::new();
    clock.advance(5);
    assert_eq!(clock.get(), 5);
    clock.advance(0);
    assert_eq!(clock.get(), 5);
    clock.advance(37);
    assert_eq!(clock.get(), 42);
}

#[test]
fn clock_try_advance_refuses_overflow() {
    let mut clock = LogicalClock::new();
    assert!(clock.try_advance(u64::MAX - 1));
    assert_eq!(clock.get(), u64::MAX - 1);
    assert!(!clock.try_advance(2));
    assert_eq!(clock.get(), u64::MAX - 1);
    assert!(clock.try_advance(1));
    assert_eq!(clock.get(), u64::MAX);
    assert!(!clock.try_advance(1));
    assert!(clock.try_advance(0));
    assert_eq!(clock.get(), u64::MAX);
}

#[test]
fn harness_starts_empty() {
    let harness: CoordTest<u8> = CoordTest::new("/tmp/fixtures".to_string());
    assert_eq!(harness.timestamp.get(), 0);
    assert!(harness.queued_feedback.messages().is_empty());
    assert_eq!(harness.uppers.get(7), 0);
    assert_eq!(harness.temp_dir, "/tmp/fixtures");
    assert!(harness.sessions.cancel("s").is_err());
}

#[test]
fn harness_rewrites_placeholder() {
    let harness: CoordTest<u8> = CoordTest::new("/tmp/fixtures".to_string());
    assert_eq!(
        harness.rewrite_query("CREATE SOURCE s FROM FILE '<TEMP>/a.txt'"),
        "CREATE SOURCE s FROM FILE '/tmp/fixtures/a.txt'"
    );
    assert_eq!(harness.rewrite_query("<TEMP><TEMP>"), "/tmp/fixtures/tmp/fixtures");
    assert_eq!(harness.rewrite_query("SELECT 1"), "SELECT 1");
    assert_eq!(harness.rewrite_query("<TEMP"), "<TEMP");
    assert_eq!(harness.rewrite_query("<<TEMP>>"), "</tmp/fixtures>");
    assert_eq!(harness.rewrite_query(""), "");
}
