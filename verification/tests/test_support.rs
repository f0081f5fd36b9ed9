use domers::test_support::FakeClock;

#[test]
fn advances_deterministically() {
    let mut clock = FakeClock::default();
    clock.advance_ms(42);
    assert_eq!(clock.now_ms(), 42);
}

#[test]
fn advance_saturates() {
    let mut clock = FakeClock::default();
    clock.advance_ms(u64::MAX);
    clock.advance_ms(5);
    assert_eq!(clock.now_ms(), u64::MAX);
}

#[test]
fn new_clock_reads_zero() {
    assert_eq!(FakeClock::new().now_ms(), 0);
    assert_eq!(FakeClock::new(), FakeClock::default());
}
