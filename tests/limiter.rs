use pv::limiter::RateLimiter;

#[test]
fn disabled_limiter_never_pauses() {
    let mut l = RateLimiter::new(None);
    l.record(1_000_000);
    assert_eq!(l.pause_nanos(0), 0);
    let mut z = RateLimiter::new(Some(0));
    z.record(1_000_000);
    assert_eq!(z.pause_nanos(0), 0);
}

#[test]
fn pause_reaches_ideal_time() {
    let mut l = RateLimiter::new(Some(1024));
    l.record(1024);
    assert_eq!(l.total, 1024);
    assert_eq!(l.pause_nanos(0), 1_000_000_000);
    assert_eq!(l.pause_nanos(250_000_000), 750_000_000);
    l.record(512);
    assert_eq!(l.pause_nanos(1_000_000_000), 500_000_000);
}

#[test]
fn short_pauses_are_skipped() {
    let mut l = RateLimiter::new(Some(1000));
    l.record(1000);
    assert_eq!(l.pause_nanos(999_000_000), 0);
    assert_eq!(l.pause_nanos(998_999_999), 1_000_001);
    assert_eq!(l.pause_nanos(2_000_000_000), 0);
}

#[test]
fn total_saturates() {
    let mut l = RateLimiter::new(Some(1));
    l.record(u64::MAX);
    l.record(5);
    assert_eq!(l.total, u64::MAX);
    assert_eq!(l.pause_nanos(0), u64::MAX as u128 * 1_000_000_000);
}
