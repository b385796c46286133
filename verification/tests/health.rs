use std::time::Duration;

use rpc_gateway::health::{now_unix_ms, ProviderHealthTracker};
use rpc_gateway::time::{unix_ms_of, Clock, Moment};

fn at(millis: u128) -> Moment {
    Moment {
        monotonic_ns: millis * 1_000_000,
        unix_ms: 1_700_000_000_000 + millis,
    }
}

#[test]
fn opens_circuit_after_threshold() {
    let mut tracker = ProviderHealthTracker::new(2, Duration::from_secs(30));
    tracker.record_failure();
    assert!(tracker.snapshot(100).healthy);

    tracker.record_failure();
    let snapshot = tracker.snapshot(100);
    assert!(!snapshot.healthy);
    assert!(snapshot.circuit_open_remaining_ms.is_some());
}

#[test]
fn success_resets_failure_state() {
    let mut tracker = ProviderHealthTracker::new(1, Duration::from_secs(30));
    tracker.record_failure();
    assert!(!tracker.snapshot(100).healthy);

    tracker.record_success();
    let snapshot = tracker.snapshot(100);
    assert!(snapshot.healthy);
    assert_eq!(snapshot.consecutive_failures, 0);
    assert_eq!(snapshot.total_success, 1);
}

#[test]
fn circuit_closes_after_recovery_window() {
    let mut tracker = ProviderHealthTracker::new(1, Duration::from_millis(15));
    tracker.record_failure_at(at(0));
    assert!(!tracker.snapshot_at(100, at(14)).healthy);
    assert_eq!(tracker.snapshot_at(100, at(4)).circuit_open_remaining_ms, Some(11));

    assert!(tracker.snapshot_at(100, at(30)).healthy);
    assert!(tracker.snapshot_at(100, at(1)).healthy);
}

#[test]
fn circuit_closes_exactly_when_the_window_ends() {
    let mut tracker = ProviderHealthTracker::new(1, Duration::from_millis(15));
    tracker.record_failure_at(at(100));
    assert!(!tracker.snapshot_at(1, at(114)).healthy);
    assert!(tracker.snapshot_at(1, at(115)).healthy);
}

#[test]
fn snapshot_reports_what_was_counted() {
    let mut tracker = ProviderHealthTracker::new(3, Duration::from_secs(1));
    tracker.record_success_at(at(1));
    tracker.record_failure_at(at(2));
    tracker.record_failure_at(at(3));
    let snapshot = tracker.snapshot_at(7, at(4));
    assert_eq!(snapshot.weight, 7);
    assert_eq!(snapshot.consecutive_failures, 2);
    assert_eq!(snapshot.total_success, 1);
    assert_eq!(snapshot.total_failures, 2);
    assert_eq!(snapshot.last_success_unix_ms, Some(1_700_000_000_001));
    assert_eq!(snapshot.last_failure_unix_ms, Some(1_700_000_000_003));
    assert_eq!(snapshot.circuit_open_remaining_ms, None);
}

#[test]
fn zero_threshold_means_one_failure() {
    let mut tracker = ProviderHealthTracker::new(0, Duration::from_secs(1));
    assert!(tracker.snapshot_at(1, at(0)).healthy);
    tracker.record_failure_at(at(0));
    assert!(!tracker.snapshot_at(1, at(999)).healthy);
}

#[test]
fn unix_time_is_in_milliseconds() {
    assert_eq!(unix_ms_of(Some(Duration::from_micros(1_999_999))), 1_999);
    assert_eq!(unix_ms_of(None), 0);
    assert!(now_unix_ms() > 1_600_000_000_000);
}

#[test]
fn clock_goes_forward() {
    let clock = Clock::start();
    let first = clock.now();
    let second = clock.now();
    assert!(first.monotonic_ns <= second.monotonic_ns);
}
