//! Durations, the monotonic clock and the wall clock.
use std::time::{Duration, Instant, SystemTime, SystemTimeError};

use vstd::prelude::*;

verus! {

/// Nanoseconds in a second.
pub const NANOS_PER_SEC: u128 = 1_000_000_000;

/// Nanoseconds in a millisecond.
pub const NANOS_PER_MILLI: u128 = 1_000_000;

/// `std::time::Instant`: an opaque reading of the monotonic clock.
#[verifier::external_type_specification]
#[verifier::external_body]
pub struct ExInstant(Instant);

/// `std::time::SystemTime`: an opaque reading of the wall clock.
#[verifier::external_type_specification]
#[verifier::external_body]
pub struct ExSystemTime(SystemTime);

/// `std::time::SystemTimeError`: the reading lies before the time asked about.
#[verifier::external_type_specification]
#[verifier::external_body]
pub struct ExSystemTimeError(SystemTimeError);

/// The length of a duration in nanoseconds, as `Duration::as_nanos` reports it.
pub uninterp spec fn duration_nanos(duration: Duration) -> nat;

/// The length of a duration in whole milliseconds.
pub open spec fn duration_millis(duration: Duration) -> nat {
    duration_nanos(duration) / (NANOS_PER_MILLI as nat)
}

/// `Duration::as_nanos` returns the total number of nanoseconds in the duration.
pub assume_specification[ Duration::as_nanos ](duration: &Duration) -> (nanos: u128)
    ensures
        nanos == duration_nanos(*duration),
;

/// `Duration::as_millis` returns the number of whole milliseconds in the duration.
pub assume_specification[ Duration::as_millis ](duration: &Duration) -> (millis: u128)
    ensures
        millis == duration_millis(*duration),
;

/// `Duration::from_millis` makes a duration of exactly that many milliseconds.
pub assume_specification[ Duration::from_millis ](millis: u64) -> (duration: Duration)
    ensures
        duration_nanos(duration) == millis * NANOS_PER_MILLI,
;

/// `Duration::from_secs` makes a duration of exactly that many whole seconds.
pub assume_specification[ Duration::from_secs ](secs: u64) -> (duration: Duration)
    ensures
        duration_nanos(duration) == secs * NANOS_PER_SEC,
;

/// `Instant::now` reads the monotonic clock; nothing is known of the reading.
pub assume_specification[ Instant::now ]() -> Instant
;

/// `Instant::elapsed` is the time since the reading; nothing is known of it.
pub assume_specification[ Instant::elapsed ](since: &Instant) -> Duration
;

/// `SystemTime::now` reads the wall clock; nothing is known of the reading.
pub assume_specification[ SystemTime::now ]() -> SystemTime
;

/// `SystemTime::duration_since` with the Unix epoch: the time from the epoch to
/// the reading, or an error for a reading before the epoch; nothing is known of
/// either.
#[verifier::external_body]
fn since_unix_epoch(reading: SystemTime) -> Result<Duration, SystemTimeError> {
    reading.duration_since(SystemTime::UNIX_EPOCH)
}

/// Milliseconds in the time since the Unix epoch, and zero where there is none.
pub open spec fn unix_ms(since_epoch: Option<Duration>) -> nat {
    match since_epoch {
        Some(elapsed) => duration_millis(elapsed),
        None => 0,
    }
}

/// Whole milliseconds in the time since the Unix epoch, and zero where the clock
/// stands before it.
pub fn unix_ms_of(since_epoch: Option<Duration>) -> (millis: u128)
    ensures
        millis == unix_ms(since_epoch),
{
    match since_epoch {
        Some(elapsed) => elapsed.as_millis(),
        None => 0,
    }
}

/// Milliseconds since the Unix epoch, and zero for a clock that stands before it.
pub fn now_unix_ms() -> (millis: u128)
    ensures
        exists|since_epoch: Option<Duration>| millis == #[trigger] unix_ms(since_epoch),
{
    unix_ms_of(since_unix_epoch(SystemTime::now()).ok())
}

/// One reading of both clocks.
#[derive(Debug, Clone, Copy, PartialEq, Eq, Structural)]
pub struct Moment {
    /// Nanoseconds since the clock was started.
    pub monotonic_ns: u128,
    /// Milliseconds since the Unix epoch.
    pub unix_ms: u128,
}

impl Moment {
    /// Whether this is the moment at which so much time has passed since the clock
    /// was started, and since the Unix epoch.
    pub open spec fn reads(self, elapsed: Duration, since_epoch: Option<Duration>) -> bool {
        &&& self.monotonic_ns == duration_nanos(elapsed)
        &&& self.unix_ms == unix_ms(since_epoch)
    }

    /// The moment at which so much time has passed since the clock was started, and
    /// since the Unix epoch.
    pub fn from_readings(elapsed: Duration, since_epoch: Option<Duration>) -> (moment: Moment)
        ensures
            moment.reads(elapsed, since_epoch),
    {
        Moment { monotonic_ns: elapsed.as_nanos(), unix_ms: unix_ms_of(since_epoch) }
    }
}

/// A pair of clocks, the monotonic one counted from when the pair was started.
#[derive(Debug, Clone, Copy)]
pub struct Clock {
    origin: Instant,
}

impl Clock {
    /// Starts counting from a reading of the monotonic clock, of which nothing is
    /// known.
    pub fn start() -> Clock {
        Clock { origin: Instant::now() }
    }

    /// Reads both clocks, in nanoseconds since the start and milliseconds since the
    /// Unix epoch. Nothing is known of the two readings themselves.
    pub fn now(&self) -> (moment: Moment)
        ensures
            exists|elapsed: Duration, since_epoch: Option<Duration>| #[trigger]
                moment.reads(elapsed, since_epoch),
    {
        Moment::from_readings(self.origin.elapsed(), since_unix_epoch(SystemTime::now()).ok())
    }
}

/// A duration of a number of milliseconds has that many, and one of a number of
/// seconds a thousand times as many; what is left of a millisecond does not count.
pub proof fn milliseconds_are_whole(duration: Duration, count: nat)
    ensures
        duration_nanos(duration) == count * 1_000_000 ==> duration_millis(duration) == count,
        duration_nanos(duration) == count * 1_000_000_000 ==> duration_millis(duration) == count
            * 1_000,
        duration_millis(duration) * 1_000_000 <= duration_nanos(duration),
        duration_nanos(duration) < (duration_millis(duration) + 1) * 1_000_000,
{
}

/// A moment is read in nanoseconds since the start and in whole milliseconds since
/// the Unix epoch, and as zero where the wall clock stands before it.
pub proof fn moments_are_read_off(
    moment: Moment,
    elapsed: Duration,
    since_epoch: Option<Duration>,
)
    requires
        moment.reads(elapsed, since_epoch),
    ensures
        moment.monotonic_ns == duration_nanos(elapsed),
        since_epoch is None ==> moment.unix_ms == 0,
        since_epoch matches Some(since) ==> moment.unix_ms * 1_000_000 <= duration_nanos(since)
            < (moment.unix_ms + 1) * 1_000_000,
{
}

} // verus!
