//! What is known of a provider's health, and the circuit breaker that goes by it.
use std::time::Duration;

use vstd::prelude::*;

pub use crate::time::now_unix_ms;
use crate::time::{duration_nanos, Clock, Moment, NANOS_PER_MILLI};

verus! {

/// Counts a provider's successes and failures, and takes it out of service for a
/// while after too many failures in a row.
pub struct ProviderHealthTracker {
    unhealthy_after_failures: u32,
    recovery_after: Duration,
    clock: Clock,
    consecutive_failures: u32,
    total_success: u64,
    total_failures: u64,
    last_success_unix_ms: Option<u128>,
    last_failure_unix_ms: Option<u128>,
    circuit_open_until_ns: Option<u128>,
}

/// The state of a tracker: after how many failures in a row the circuit opens and
/// for how many nanoseconds, what was counted, and until when the circuit is open.
#[verifier::ext_equal]
pub struct HealthView {
    pub threshold: nat,
    pub recovery_ns: nat,
    pub consecutive_failures: u32,
    pub total_success: u64,
    pub total_failures: u64,
    pub last_success_unix_ms: Option<u128>,
    pub last_failure_unix_ms: Option<u128>,
    pub open_until_ns: Option<u128>,
}

/// A provider's health at some time.
#[derive(Debug, Clone, Copy, PartialEq, Eq, Structural)]
pub struct ProviderHealthSnapshot {
    /// The weight that the provider is configured with.
    pub weight: u32,
    pub healthy: bool,
    pub consecutive_failures: u32,
    pub total_success: u64,
    pub total_failures: u64,
    pub last_success_unix_ms: Option<u128>,
    pub last_failure_unix_ms: Option<u128>,
    pub circuit_open_remaining_ms: Option<u64>,
}

/// A number plus another one, up to the largest.
pub open spec fn capped_sum(left: nat, right: nat) -> u128 {
    if left + right > u128::MAX {
        u128::MAX
    } else {
        (left + right) as u128
    }
}

impl HealthView {
    /// A provider of which nothing is known.
    pub open spec fn fresh(unhealthy_after_failures: u32, recovery_ns: nat) -> HealthView {
        HealthView {
            threshold: if unhealthy_after_failures < 1 {
                1
            } else {
                unhealthy_after_failures as nat
            },
            recovery_ns,
            consecutive_failures: 0,
            total_success: 0,
            total_failures: 0,
            last_success_unix_ms: None,
            last_failure_unix_ms: None,
            open_until_ns: None,
        }
    }

    /// The provider after it answered: the circuit is closed.
    pub open spec fn after_success(self, now: Moment) -> HealthView {
        HealthView {
            consecutive_failures: 0,
            total_success: if self.total_success == u64::MAX {
                u64::MAX
            } else {
                (self.total_success + 1) as u64
            },
            last_success_unix_ms: Some(now.unix_ms),
            open_until_ns: None,
            ..self
        }
    }

    /// The provider after it failed: with enough failures in a row the circuit is
    /// open from now on.
    pub open spec fn after_failure(self, now: Moment) -> HealthView {
        let failures = if self.consecutive_failures == u32::MAX {
            u32::MAX
        } else {
            (self.consecutive_failures + 1) as u32
        };
        HealthView {
            consecutive_failures: failures,
            total_failures: if self.total_failures == u64::MAX {
                u64::MAX
            } else {
                (self.total_failures + 1) as u64
            },
            last_failure_unix_ms: Some(now.unix_ms),
            open_until_ns: if failures >= self.threshold {
                Some(capped_sum(now.monotonic_ns as nat, self.recovery_ns))
            } else {
                self.open_until_ns
            },
            ..self
        }
    }

    /// Whether the circuit is closed at a time.
    pub open spec fn is_healthy(self, now: Moment) -> bool {
        match self.open_until_ns {
            Some(until) => until <= now.monotonic_ns,
            None => true,
        }
    }

    /// The provider after it was looked at: a circuit whose time has come is
    /// closed.
    pub open spec fn after_snapshot(self, now: Moment) -> HealthView {
        if self.is_healthy(now) {
            HealthView { open_until_ns: None, ..self }
        } else {
            self
        }
    }

    /// The provider's health at a time.
    pub open spec fn snapshot(self, weight: u32, now: Moment) -> ProviderHealthSnapshot {
        ProviderHealthSnapshot {
            weight,
            healthy: self.is_healthy(now),
            consecutive_failures: self.consecutive_failures,
            total_success: self.total_success,
            total_failures: self.total_failures,
            last_success_unix_ms: self.last_success_unix_ms,
            last_failure_unix_ms: self.last_failure_unix_ms,
            circuit_open_remaining_ms: if self.is_healthy(now) {
                None
            } else {
                Some(
                    ((self.open_until_ns->0 - now.monotonic_ns) / (NANOS_PER_MILLI as int)) as u64,
                )
            },
        }
    }
}

impl View for ProviderHealthTracker {
    type V = HealthView;

    closed spec fn view(&self) -> HealthView {
        HealthView {
            threshold: self.unhealthy_after_failures as nat,
            recovery_ns: duration_nanos(self.recovery_after),
            consecutive_failures: self.consecutive_failures,
            total_success: self.total_success,
            total_failures: self.total_failures,
            last_success_unix_ms: self.last_success_unix_ms,
            last_failure_unix_ms: self.last_failure_unix_ms,
            open_until_ns: self.circuit_open_until_ns,
        }
    }
}

impl ProviderHealthTracker {
    pub fn new(unhealthy_after_failures: u32, recovery_after: Duration) -> (tracker: Self)
        ensures
            tracker@ == HealthView::fresh(unhealthy_after_failures, duration_nanos(recovery_after)),
    {
        Self::with_clock(unhealthy_after_failures, recovery_after, Clock::start())
    }

    /// A tracker that reads the given clock.
    pub fn with_clock(unhealthy_after_failures: u32, recovery_after: Duration, clock: Clock) -> (tracker:
        Self)
        ensures
            tracker@ == HealthView::fresh(unhealthy_after_failures, duration_nanos(recovery_after)),
    {
        ProviderHealthTracker {
            unhealthy_after_failures: unhealthy_after_failures.max(1),
            recovery_after,
            clock,
            consecutive_failures: 0,
            total_success: 0,
            total_failures: 0,
            last_success_unix_ms: None,
            last_failure_unix_ms: None,
            circuit_open_until_ns: None,
        }
    }

    /// The provider answered now.
    pub fn record_success(&mut self)
        ensures
            exists|now: Moment| final(self)@ == #[trigger] old(self)@.after_success(now),
    {
        let now: Moment = self.clock.now();
        self.record_success_at(now);
    }

    /// The provider answered at the given time.
    pub fn record_success_at(&mut self, now: Moment)
        ensures
            final(self)@ == old(self)@.after_success(now),
    {
        self.total_success = self.total_success.saturating_add(1);
        self.consecutive_failures = 0;
        self.last_success_unix_ms = Some(now.unix_ms);
        self.circuit_open_until_ns = None;
    }

    /// The provider failed now.
    pub fn record_failure(&mut self)
        ensures
            exists|now: Moment| final(self)@ == #[trigger] old(self)@.after_failure(now),
    {
        let now: Moment = self.clock.now();
        self.record_failure_at(now);
    }

    /// The provider failed at the given time.
    pub fn record_failure_at(&mut self, now: Moment)
        ensures
            final(self)@ == old(self)@.after_failure(now),
    {
        self.total_failures = self.total_failures.saturating_add(1);
        self.consecutive_failures = self.consecutive_failures.saturating_add(1);
        self.last_failure_unix_ms = Some(now.unix_ms);
        if self.consecutive_failures >= self.unhealthy_after_failures {
            self.circuit_open_until_ns = Some(
                now.monotonic_ns.saturating_add(self.recovery_after.as_nanos()),
            );
        }
    }

    /// The provider's health now.
    pub fn snapshot(&mut self, weight: u32) -> (snapshot: ProviderHealthSnapshot)
        ensures
            exists|now: Moment|
                snapshot == #[trigger] old(self)@.snapshot(weight, now) && final(self)@
                    == old(self)@.after_snapshot(now),
    {
        let now: Moment = self.clock.now();
        self.snapshot_at(weight, now)
    }

    /// The provider's health at the given time.
    pub fn snapshot_at(&mut self, weight: u32, now: Moment) -> (snapshot: ProviderHealthSnapshot)
        ensures
            snapshot == old(self)@.snapshot(weight, now),
            final(self)@ == old(self)@.after_snapshot(now),
    {
        let (healthy, remaining): (bool, Option<u64>) = match self.circuit_open_until_ns {
            Some(until) => {
                if until > now.monotonic_ns {
                    let remaining_ms: u128 = (until - now.monotonic_ns) / NANOS_PER_MILLI;
                    (false, Some(#[verifier::truncate] (remaining_ms as u64)))
                } else {
                    self.circuit_open_until_ns = None;
                    (true, None)
                }
            },
            None => (true, None),
        };
        ProviderHealthSnapshot {
            weight,
            healthy,
            consecutive_failures: self.consecutive_failures,
            total_success: self.total_success,
            total_failures: self.total_failures,
            last_success_unix_ms: self.last_success_unix_ms,
            last_failure_unix_ms: self.last_failure_unix_ms,
            circuit_open_remaining_ms: remaining,
        }
    }
}

/// The circuit opens with the failure that makes enough of them in a row, and
/// stays open until the time to recover has passed.
pub proof fn circuit_opens_after_threshold(state: HealthView, now: Moment, later: Moment)
    requires
        state.after_failure(now).consecutive_failures >= state.threshold,
        now.monotonic_ns + state.recovery_ns <= u128::MAX,
    ensures
        state.after_failure(now).is_healthy(later) <==> later.monotonic_ns >= now.monotonic_ns
            + state.recovery_ns,
{
}

/// Fewer failures in a row leave the circuit as it is.
pub proof fn circuit_stays_below_threshold(state: HealthView, now: Moment, later: Moment)
    requires
        state.after_failure(now).consecutive_failures < state.threshold,
    ensures
        state.after_failure(now).is_healthy(later) == state.is_healthy(later),
{
}

/// A success closes the circuit and forgets the failures in a row.
pub proof fn success_resets_failures(state: HealthView, now: Moment, later: Moment)
    ensures
        state.after_success(now).is_healthy(later),
        state.after_success(now).consecutive_failures == 0,
        state.after_success(now).total_failures == state.total_failures,
{
}

/// A circuit that was seen closed stays closed until the next failure.
pub proof fn closed_circuit_stays_closed(state: HealthView, now: Moment, later: Moment)
    requires
        state.is_healthy(now),
    ensures
        state.after_snapshot(now).is_healthy(later),
{
}

/// A success counts once and a failure counts once, each with its time, and neither
/// counts as the other; the counts stop at the largest number.
pub proof fn successes_and_failures_are_counted(state: HealthView, now: Moment)
    ensures
        ({
            let good = state.after_success(now);
            let bad = state.after_failure(now);
            &&& state.total_success < u64::MAX ==> good.total_success == state.total_success + 1
            &&& good.total_failures == state.total_failures
            &&& good.last_success_unix_ms == Some(now.unix_ms)
            &&& good.last_failure_unix_ms == state.last_failure_unix_ms
            &&& state.total_success == u64::MAX ==> good.total_success == u64::MAX
            &&& state.total_failures < u64::MAX ==> bad.total_failures == state.total_failures + 1
            &&& state.total_failures == u64::MAX ==> bad.total_failures == u64::MAX
            &&& state.consecutive_failures == u32::MAX ==> bad.consecutive_failures == u32::MAX
            &&& good.consecutive_failures == 0 && good.open_until_ns is None
            &&& bad.total_success == state.total_success
            &&& state.consecutive_failures < u32::MAX ==> bad.consecutive_failures
                == state.consecutive_failures + 1
            &&& bad.last_failure_unix_ms == Some(now.unix_ms)
            &&& bad.last_success_unix_ms == state.last_success_unix_ms
            &&& good.threshold == state.threshold && bad.threshold == state.threshold
            &&& good.recovery_ns == state.recovery_ns && bad.recovery_ns == state.recovery_ns
        }),
{
}

/// The circuit of a provider that failed as often in a row as is configured, or once
/// where that is nothing, is open, and only then is it opened.
pub proof fn the_configured_number_of_failures_opens_the_circuit(
    unhealthy_after_failures: u32,
    recovery_ns: nat,
    state: HealthView,
    now: Moment,
)
    requires
        state.threshold == HealthView::fresh(unhealthy_after_failures, recovery_ns).threshold,
        state.recovery_ns == recovery_ns,
        state.consecutive_failures < u32::MAX,
        state.open_until_ns is None,
        recovery_ns > 0,
        now.monotonic_ns + recovery_ns <= u128::MAX,
    ensures
        state.after_failure(now).is_healthy(now) <==> state.consecutive_failures + 1
            < unhealthy_after_failures,
        HealthView::fresh(unhealthy_after_failures, recovery_ns).is_healthy(now),
        HealthView::fresh(unhealthy_after_failures, recovery_ns).consecutive_failures == 0,
        HealthView::fresh(unhealthy_after_failures, recovery_ns).total_success == 0,
        HealthView::fresh(unhealthy_after_failures, recovery_ns).total_failures == 0,
        HealthView::fresh(unhealthy_after_failures, recovery_ns).recovery_ns == recovery_ns,
        HealthView::fresh(unhealthy_after_failures, recovery_ns).last_success_unix_ms is None,
        HealthView::fresh(unhealthy_after_failures, recovery_ns).last_failure_unix_ms is None,
        HealthView::fresh(unhealthy_after_failures, recovery_ns).open_until_ns is None,
{
}

/// A snapshot tells what was counted, and for how many whole milliseconds the circuit
/// is still open, where it is; the provider is healthy exactly where it is not.
pub proof fn snapshots_tell_the_state(state: HealthView, weight: u32, now: Moment)
    ensures
        ({
            let snapshot = state.snapshot(weight, now);
            &&& snapshot.weight == weight
            &&& snapshot.consecutive_failures == state.consecutive_failures
            &&& snapshot.total_success == state.total_success
            &&& snapshot.total_failures == state.total_failures
            &&& snapshot.last_success_unix_ms == state.last_success_unix_ms
            &&& snapshot.last_failure_unix_ms == state.last_failure_unix_ms
            &&& snapshot.healthy <==> snapshot.circuit_open_remaining_ms is None
            &&& snapshot.healthy <==> (state.open_until_ns is None || state.open_until_ns->0
                <= now.monotonic_ns)
            &&& !snapshot.healthy && state.open_until_ns->0 - now.monotonic_ns < 1_000_000
                * u64::MAX ==> {
                let left = state.open_until_ns->0 - now.monotonic_ns;
                &&& snapshot.circuit_open_remaining_ms->0 * 1_000_000 <= left
                &&& left < (snapshot.circuit_open_remaining_ms->0 + 1) * 1_000_000
            }
            &&& state.after_snapshot(now) == (HealthView {
                open_until_ns: state.after_snapshot(now).open_until_ns,
                ..state
            })
            &&& !snapshot.healthy ==> state.after_snapshot(now) == state
        }),
{
}

} // verus!
