use relay_core::timer::{IdleTimer, TimerCheck};

#[test]
fn timer_expires_after_more_than_the_timeout() {
    let t = IdleTimer::new(30_000, 1_000);
    assert_eq!(t.timeout_ms(), 30_000);
    assert_eq!(t.last_activity_ms(), 1_000);
    assert!(!t.is_expired(1_000));
    assert!(!t.is_expired(31_000));
    assert!(t.is_expired(31_001));
    assert_eq!(t.check(31_000), TimerCheck::Pending(1));
    assert_eq!(t.check(31_001), TimerCheck::Expired);
    assert_eq!(t.check(1_000), TimerCheck::Pending(30_001));
    assert_eq!(t.check(11_000), TimerCheck::Pending(20_001));
}

#[test]
fn zero_timeout_never_expires() {
    let t = IdleTimer::new(0, 0);
    assert!(!t.is_expired(u64::MAX));
    assert_eq!(t.check(u64::MAX), TimerCheck::Disabled);
}

#[test]
fn steady_flow_never_times_out() {
    let mut t = IdleTimer::new(100, 0);
    let mut now: u64 = 0;
    for _ in 0..10_000 {
        now += 100;
        assert!(!t.is_expired(now));
        assert!(matches!(t.check(now), TimerCheck::Pending(_)));
        t.touch(now);
    }
    assert_eq!(t.last_activity_ms(), 1_000_000);
    assert!(t.is_expired(now + 101));
}

#[test]
fn touch_does_not_go_backwards() {
    let mut t = IdleTimer::new(10, 500);
    t.touch(400);
    assert_eq!(t.last_activity_ms(), 500);
    t.touch(600);
    assert_eq!(t.last_activity_ms(), 600);
}

#[test]
fn clock_before_last_activity_counts_as_no_idle_time() {
    let t = IdleTimer::new(10, 500);
    assert!(!t.is_expired(0));
    assert_eq!(t.check(0), TimerCheck::Pending(11));
}

#[test]
fn pending_wait_saturates() {
    let t = IdleTimer::new(u64::MAX, 0);
    assert_eq!(t.check(0), TimerCheck::Pending(u64::MAX));
    assert_eq!(t.check(5), TimerCheck::Pending(u64::MAX - 4));
    assert!(!t.is_expired(u64::MAX));
}
