use std::time::Duration;

use rpc_gateway::time::{Clock, Moment};

#[test]
fn readings_become_nanoseconds_and_milliseconds() {
    let elapsed = Duration::new(3, 45);
    let since_epoch = Duration::from_micros(7_999);
    assert_eq!(
        Moment::from_readings(elapsed, Some(since_epoch)),
        Moment { monotonic_ns: 3_000_000_045, unix_ms: 7 }
    );
}

#[test]
fn a_wall_clock_before_the_epoch_reads_zero() {
    assert_eq!(
        Moment::from_readings(Duration::ZERO, None),
        Moment { monotonic_ns: 0, unix_ms: 0 }
    );
}

#[test]
fn a_clock_does_not_run_backwards() {
    let clock = Clock::start();
    let first = clock.now();
    let second = clock.now();
    assert!(first.monotonic_ns <= second.monotonic_ns);
    assert!(first.unix_ms > 0);
}
