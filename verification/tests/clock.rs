use timesync::clock::{
    adjust_time, increment_message_count, increment_timeout_count, kernel_user_drift, ReferenceClock,
    TIMEOUT_LIMIT,
};
use timesync::events::Event;

#[test]
fn reference_clock_read_after_write() {
    let mut c = ReferenceClock::new();
    assert_eq!(c.get_kernel_zero(), 0);
    c.set_kernel_zero(1234);
    c.set_user_zero(99);
    assert_eq!(c.get_kernel_zero(), 1234);
    assert_eq!(c.get_user_zero(), 99);
    c.set_kernel_zero(5);
    assert_eq!(c.get_user_zero(), 99);
}

#[test]
fn kernel_relative_and_preferred_time() {
    let mut c = ReferenceClock::new();
    c.set_kernel_zero(1000);
    assert_eq!(c.kernel_relative(1500), 500);
    let e = Event { event_type: 1, timestamp: 1700, pid: 0, msg_type: 1, seq: 0, tcp_seq: 0 };
    assert_eq!(c.preferred_time(Some(e), 9), 700);
    assert_eq!(c.preferred_time(None, 9), 9);
}

#[test]
fn message_count_increments() {
    let mut n = 1u64;
    assert_eq!(increment_message_count(&mut n), 2);
    assert_eq!(increment_message_count(&mut n), 3);
    assert_eq!(n, 3);
}

#[test]
fn timeout_count_trips_after_ten() {
    let mut n = 0u64;
    for _ in 0..TIMEOUT_LIMIT {
        assert!(!increment_timeout_count(&mut n));
    }
    assert!(increment_timeout_count(&mut n));
    assert!(increment_timeout_count(&mut n));
    assert_eq!(n, 12);
}

#[test]
fn adjust_time_shifts_both_ways() {
    assert_eq!(adjust_time(500, 10_000), 9_500);
    assert_eq!(adjust_time(-500, 10_000), 10_500);
    assert_eq!(adjust_time(0, 10_000), 10_000);
    // offsets are taken modulo 2^64 like a Duration built from them
    assert_eq!(adjust_time((1i128 << 64) + 7, 100), 93);
}

#[test]
fn drift_between_references() {
    assert_eq!(kernel_user_drift(100, 10, 30), (20, 80));
    assert_eq!(kernel_user_drift(0, 30, 10), (-20, 20));
}

#[test]
fn successive_message_counts() {
    let mut n = 40u64;
    let got: Vec<u64> = (0..5).map(|_| increment_message_count(&mut n)).collect();
    assert_eq!(got, vec![41, 42, 43, 44, 45]);
}

#[test]
fn timeouts_stay_exceeded() {
    let mut n = 0u64;
    let got: Vec<bool> = (0..15).map(|_| increment_timeout_count(&mut n)).collect();
    let first = got.iter().position(|&b| b).unwrap();
    assert_eq!(first, 10);
    assert!(got[first..].iter().all(|&b| b));
    assert!(got[..first].iter().all(|&b| !b));
}
