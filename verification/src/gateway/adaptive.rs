//! How many providers a request is raced on, given the load and how far apart
//! the providers' latencies lie.
use std::collections::VecDeque;
use std::time::Duration;

use vstd::prelude::*;
use vstd::relations::{sorted_by, total_ordering};
use vstd::seq_lib::lemma_sorted_unique;

use crate::settings::AdaptiveHedgingConfig;
use crate::time::{duration_millis, Clock, NANOS_PER_SEC};

verus! {

/// Why a race has the width that it has.
#[derive(Debug, Clone, Copy, PartialEq, Eq, Structural)]
pub enum HedgeReason {
    AdaptiveDisabled,
    NoCandidates,
    HighLoad,
    HighLatencyVariance,
    ModerateVarianceLowLoad,
    ModerateVarianceModerateLoad,
    LowVariance,
}

/// How many providers to call at once, and on what grounds.
#[derive(Debug, Clone, Copy)]
pub struct HedgeDecision {
    pub hedge_width: usize,
    /// Requests within the window.
    pub observed_requests: usize,
    pub observed_latency_spread_ms: u64,
    pub reason: HedgeReason,
}

/// What is known of the races so far.
#[derive(Debug, Clone, Copy)]
pub struct HedgingStatsView {
    pub adaptive_enabled: bool,
    pub total_hedged_requests: u64,
    pub hedge_win_count: u64,
    /// Requests within the window when it was last looked at.
    pub observed_requests: usize,
    /// The length of the window in seconds.
    pub observed_window_secs: u64,
    pub observed_latency_spread_ms: u64,
    pub min_hedge_width: usize,
    pub max_hedge_width: usize,
    pub last_decision_reason: Option<HedgeReason>,
}

/// Watches requests and latencies, and decides how widely to race.
pub struct AdaptiveHedgingController {
    config: AdaptiveHedgingConfig,
    clock: Clock,
    request_timestamps: VecDeque<u128>,
    provider_latency_samples: Vec<VecDeque<u64>>,
    total_hedged_requests: u64,
    hedge_win_count: u64,
    last_observed_requests: usize,
    last_latency_spread_ms: u64,
    last_decision_reason: Option<HedgeReason>,
}

/// The state of the controller: the times of recent requests, the recent
/// latencies of each provider, and what was counted and last observed.
#[verifier::ext_equal]
pub struct AdaptiveView {
    pub config: AdaptiveHedgingConfig,
    pub timestamps: Seq<u128>,
    pub samples: Seq<Seq<u64>>,
    pub total_hedged_requests: u64,
    pub hedge_win_count: u64,
    pub last_observed_requests: usize,
    pub last_latency_spread_ms: u64,
    pub last_decision_reason: Option<HedgeReason>,
}

/// The requests that are left when those that are older than the window have
/// been dropped from the front.
pub open spec fn pruned(timestamps: Seq<u128>, now: u128, window: nat) -> Seq<u128>
    decreases timestamps.len(),
{
    if timestamps.len() > 0 && now - timestamps[0] > window {
        pruned(timestamps.skip(1), now, window)
    } else {
        timestamps
    }
}

/// The last few of the samples.
pub open spec fn most_recent(samples: Seq<u64>, limit: nat) -> Seq<u64> {
    if samples.len() <= limit {
        samples
    } else {
        samples.skip(samples.len() - limit)
    }
}

/// The samples in ascending order.
pub open spec fn ascending(samples: Seq<u64>) -> Seq<u64> {
    samples.sort_by(|a: u64, b: u64| a <= b)
}

/// The 95th percentile: the smallest sample that at least 95 in 100 samples do
/// not exceed.
pub open spec fn p95(samples: Seq<u64>) -> u64 {
    ascending(samples)[samples.len() - samples.len() / 20 - 1]
}

/// The 95th percentiles of the ranked providers of which there are samples.
pub open spec fn p95_values(samples: Seq<Seq<u64>>, ranked: Seq<usize>) -> Seq<u64>
    decreases ranked.len(),
{
    if ranked.len() == 0 {
        Seq::empty()
    } else {
        let before = p95_values(samples, ranked.drop_last());
        let index = ranked.last() as int;
        if index < samples.len() && samples[index].len() > 0 {
            before.push(p95(samples[index]))
        } else {
            before
        }
    }
}

/// The largest of the values, and zero where there is none.
pub open spec fn largest(values: Seq<u64>) -> u64
    decreases values.len(),
{
    if values.len() == 0 {
        0
    } else {
        let before = largest(values.drop_last());
        if values.last() > before {
            values.last()
        } else {
            before
        }
    }
}

/// The smallest of the values, and the largest number where there is none.
pub open spec fn smallest(values: Seq<u64>) -> u64
    decreases values.len(),
{
    if values.len() == 0 {
        u64::MAX
    } else {
        let before = smallest(values.drop_last());
        if values.last() < before {
            values.last()
        } else {
            before
        }
    }
}

/// How far apart the 95th percentiles of the ranked providers lie; nothing can
/// be said of fewer than two.
pub open spec fn spread(samples: Seq<Seq<u64>>, ranked: Seq<usize>) -> Option<u64> {
    let values = p95_values(samples, ranked);
    if values.len() < 2 {
        None
    } else {
        Some((largest(values) - smallest(values)) as u64)
    }
}

/// The smaller of two numbers.
pub open spec fn at_most(value: nat, limit: nat) -> nat {
    if value <= limit {
        value
    } else {
        limit
    }
}

/// How widely to race, and why: as narrowly as allowed under high load, as widely
/// as allowed where the latencies lie far apart, and one wider than the least
/// where they lie moderately far apart under low load.
pub open spec fn width_and_reason(
    config: AdaptiveHedgingConfig,
    requests: nat,
    spread_ms: u64,
    available: nat,
) -> (nat, HedgeReason) {
    let least = at_most(config.min_width(), available);
    let most = at_most(config.max_width(), available);
    if available == 0 {
        (0, HedgeReason::NoCandidates)
    } else if !config.enabled {
        (1, HedgeReason::AdaptiveDisabled)
    } else if requests >= config.high_load_requests {
        (least, HedgeReason::HighLoad)
    } else if spread_ms >= config.high_latency_spread_ms {
        (most, HedgeReason::HighLatencyVariance)
    } else if spread_ms >= config.medium_latency_spread_ms {
        if requests >= config.medium_load_requests {
            (least, HedgeReason::ModerateVarianceModerateLoad)
        } else {
            (at_most(least + 1, most), HedgeReason::ModerateVarianceLowLoad)
        }
    } else {
        (least, HedgeReason::LowVariance)
    }
}

/// One more, up to the largest number.
pub open spec fn one_more(count: u64) -> u64 {
    if count == u64::MAX {
        count
    } else {
        (count + 1) as u64
    }
}

impl AdaptiveView {
    /// The length of the window in nanoseconds.
    pub open spec fn window_ns(self) -> nat {
        self.config.window_secs() * (NANOS_PER_SEC as nat)
    }

    /// The controller when it has dropped the requests that left the window, and
    /// counted the others.
    pub open spec fn observed_at(self, now: u128) -> AdaptiveView {
        let recent = pruned(self.timestamps, now, self.window_ns());
        AdaptiveView {
            timestamps: recent,
            last_observed_requests: recent.len() as usize,
            ..self
        }
    }

    /// The controller after a request.
    pub open spec fn after_request(self, now: u128) -> AdaptiveView {
        AdaptiveView { timestamps: self.timestamps.push(now), ..self }.observed_at(now)
    }

    /// The controller after a provider answered.
    pub open spec fn after_latency(self, provider: usize, latency_ms: u64) -> AdaptiveView {
        if provider < self.samples.len() {
            AdaptiveView {
                samples: self.samples.update(
                    provider as int,
                    most_recent(
                        self.samples[provider as int].push(latency_ms),
                        self.config.sample_limit(),
                    ),
                ),
                ..self
            }
        } else {
            self
        }
    }

    /// The controller after a race.
    pub open spec fn after_outcome(self, preferred: usize, winner: usize) -> AdaptiveView {
        AdaptiveView {
            total_hedged_requests: one_more(self.total_hedged_requests),
            hedge_win_count: if preferred != winner {
                one_more(self.hedge_win_count)
            } else {
                self.hedge_win_count
            },
            ..self
        }
    }

    /// The decision on a race among the ranked providers.
    pub open spec fn decision(self, ranked: Seq<usize>, now: u128) -> (nat, HedgeReason) {
        width_and_reason(
            self.config,
            self.observed_at(now).timestamps.len(),
            self.spread_or_zero(ranked),
            ranked.len(),
        )
    }

    /// How far apart the latencies of the ranked providers lie, and zero where
    /// nothing can be said.
    pub open spec fn spread_or_zero(self, ranked: Seq<usize>) -> u64 {
        match spread(self.samples, ranked) {
            Some(millis) => millis,
            None => 0,
        }
    }

    /// The controller after such a decision.
    pub open spec fn after_decision(self, ranked: Seq<usize>, now: u128) -> AdaptiveView {
        AdaptiveView {
            last_latency_spread_ms: self.spread_or_zero(ranked),
            last_decision_reason: Some(self.decision(ranked, now).1),
            ..self.observed_at(now)
        }
    }
}

impl View for AdaptiveHedgingController {
    type V = AdaptiveView;

    closed spec fn view(&self) -> AdaptiveView {
        AdaptiveView {
            config: self.config,
            timestamps: self.request_timestamps@,
            samples: sample_views(self.provider_latency_samples@),
            total_hedged_requests: self.total_hedged_requests,
            hedge_win_count: self.hedge_win_count,
            last_observed_requests: self.last_observed_requests,
            last_latency_spread_ms: self.last_latency_spread_ms,
            last_decision_reason: self.last_decision_reason,
        }
    }
}

spec fn sample_views(samples: Seq<VecDeque<u64>>) -> Seq<Seq<u64>> {
    samples.map_values(|queue: VecDeque<u64>| queue@)
}

/// Drops the requests that left the window from the front.
fn prune_old_timestamps(timestamps: &mut VecDeque<u128>, now: u128, window_secs: u64)
    ensures
        final(timestamps)@ == pruned(
            old(timestamps)@,
            now,
            (if window_secs < 1 {
                1
            } else {
                window_secs as nat
            }) * (NANOS_PER_SEC as nat),
        ),
{
    let window: u128 = (window_secs.max(1) as u128) * NANOS_PER_SEC;
    let ghost all = timestamps@;
    while timestamps.len() > 0 && now.saturating_sub(timestamps[0]) > window
        invariant
            pruned(timestamps@, now, window as nat) == pruned(all, now, window as nat),
        decreases timestamps@.len(),
    {
        let ghost before = timestamps@;
        let _ = timestamps.pop_front();
        assert(timestamps@ =~= before.skip(1));
    }
}

/// Adds a sample, and drops the oldest where there are too many.
fn push_sample(samples: &mut VecDeque<u64>, sample: u64, limit: usize)
    ensures
        final(samples)@ == most_recent(old(samples)@.push(sample), limit as nat),
{
    samples.push_back(sample);
    let ghost all = samples@;
    assert(all.skip(0) =~= all);
    while samples.len() > limit
        invariant
            samples@.len() <= all.len(),
            samples@ == all.skip(all.len() - samples@.len()),
            samples@.len() >= limit || samples@ == all,
        decreases samples@.len(),
    {
        let ghost before = samples@;
        let _ = samples.pop_front();
        assert(samples@ =~= all.skip(all.len() - samples@.len()));
    }
}

/// `<[u64]>::sort_unstable`: rearranges the values in ascending order.
#[verifier::external_body]
fn sort_values(values: &mut Vec<u64>)
    ensures
        sorted_by(final(values)@, |a: u64, b: u64| a <= b),
        final(values)@.to_multiset() == old(values)@.to_multiset(),
        final(values)@.len() == old(values)@.len(),
{
    values.sort_unstable();
}

/// The 95th percentile of a provider's samples.
fn p95_latency_ms(samples: &VecDeque<u64>) -> (value: u64)
    requires
        samples@.len() > 0,
    ensures
        value == p95(samples@),
{
    let mut values: Vec<u64> = Vec::new();
    let mut i: usize = 0;
    while i < samples.len()
        invariant
            i <= samples@.len(),
            values@ == samples@.take(i as int),
        decreases samples@.len() - i,
    {
        values.push(samples[i]);
        i = i + 1;
        assert(values@ =~= samples@.take(i as int));
    }
    assert(values@ =~= samples@);
    sort_values(&mut values);
    proof {
        let leq = |a: u64, b: u64| a <= b;
        assert(total_ordering(leq));
        samples@.lemma_sort_by_ensures(leq);
        lemma_sorted_unique(values@, samples@.sort_by(leq), leq);
    }
    let count: usize = values.len();
    values[count - count / 20 - 1]
}

/// How far apart the 95th percentiles of the ranked providers lie.
fn p95_latency_spread_ms(samples: &Vec<VecDeque<u64>>, ranked: &[usize]) -> (result: Option<u64>)
    ensures
        result == spread(sample_views(samples@), ranked@),
{
    let ghost views = sample_views(samples@);
    let mut count: usize = 0;
    let mut low: u64 = u64::MAX;
    let mut high: u64 = 0;
    let mut i: usize = 0;
    while i < ranked.len()
        invariant
            views == sample_views(samples@),
            i <= ranked@.len(),
            count <= i,
            count == p95_values(views, ranked@.take(i as int)).len(),
            low == smallest(p95_values(views, ranked@.take(i as int))),
            high == largest(p95_values(views, ranked@.take(i as int))),
            count > 0 ==> low <= high,
        decreases ranked@.len() - i,
    {
        assert(ranked@.take(i + 1).drop_last() =~= ranked@.take(i as int));
        let provider: usize = ranked[i];
        if provider < samples.len() && samples[provider].len() > 0 {
            let value: u64 = p95_latency_ms(&samples[provider]);
            proof {
                let before = p95_values(views, ranked@.take(i as int));
                assert(views[provider as int] == samples@[provider as int]@);
                assert(before.push(value).drop_last() =~= before);
            }
            low = low.min(value);
            high = high.max(value);
            count = count + 1;
        }
        i = i + 1;
    }
    assert(ranked@.take(i as int) =~= ranked@);
    if count < 2 {
        None
    } else {
        Some(high - low)
    }
}

impl AdaptiveHedgingController {
    /// A controller for a number of providers, which has seen nothing yet.
    pub fn new(config: AdaptiveHedgingConfig, provider_count: usize) -> (controller: Self)
        ensures
            controller@ == fresh_view(config, provider_count as nat),
    {
        Self::with_clock(config, provider_count, Clock::start())
    }

    /// A controller that reads the given clock.
    pub fn with_clock(config: AdaptiveHedgingConfig, provider_count: usize, clock: Clock) -> (controller:
        Self)
        ensures
            controller@ == fresh_view(config, provider_count as nat),
    {
        let count: usize = provider_count.max(1);
        let mut samples: Vec<VecDeque<u64>> = Vec::new();
        let mut i: usize = 0;
        while i < count
            invariant
                i <= count,
                samples@.len() == i,
                forall|k: int| 0 <= k < i ==> (#[trigger] samples@[k])@ == Seq::<u64>::empty(),
            decreases count - i,
        {
            samples.push(VecDeque::new());
            i = i + 1;
        }
        assert(sample_views(samples@) =~= Seq::new(count as nat, |k: int| Seq::<u64>::empty()));
        AdaptiveHedgingController {
            config,
            clock,
            request_timestamps: VecDeque::new(),
            provider_latency_samples: samples,
            total_hedged_requests: 0,
            hedge_win_count: 0,
            last_observed_requests: 0,
            last_latency_spread_ms: 0,
            last_decision_reason: None,
        }
    }

    /// Counts a request that comes in now.
    pub fn record_request(&mut self)
        ensures
            exists|now: u128| final(self)@ == #[trigger] old(self)@.after_request(now),
    {
        let now: u128 = self.clock.now().monotonic_ns;
        self.record_request_at(now);
    }

    /// Counts a request that comes in at the given time.
    pub fn record_request_at(&mut self, now_ns: u128)
        ensures
            final(self)@ == old(self)@.after_request(now_ns),
    {
        self.request_timestamps.push_back(now_ns);
        self.observe(now_ns);
    }

    /// Drops the requests that left the window, and counts the others.
    fn observe(&mut self, now_ns: u128)
        ensures
            final(self)@ == old(self)@.observed_at(now_ns),
            final(self).request_timestamps@.len() == final(self).last_observed_requests,
            final(self).provider_latency_samples == old(self).provider_latency_samples,
    {
        prune_old_timestamps(
            &mut self.request_timestamps,
            now_ns,
            self.config.normalized_rps_window_secs(),
        );
        self.last_observed_requests = self.request_timestamps.len();
    }

    /// Keeps how long a provider took to answer, in whole milliseconds.
    pub fn record_provider_latency(&mut self, provider_index: usize, latency: Duration)
        ensures
            final(self)@ == old(self)@.after_latency(
                provider_index,
                duration_millis(latency) as u64,
            ),
    {
        if provider_index >= self.provider_latency_samples.len() {
            return;
        }
        let millis: u128 = latency.as_millis();
        let sample: u64 = #[verifier::truncate] (millis as u64);
        let limit: usize = self.config.normalized_max_latency_samples();
        push_sample(&mut self.provider_latency_samples[provider_index], sample, limit);
        assert(self@.samples =~= old(self)@.after_latency(provider_index, sample).samples);
    }

    /// Counts a race, and whether another provider than the preferred one won.
    pub fn record_hedge_outcome(&mut self, preferred_provider: usize, winner_provider: usize)
        ensures
            final(self)@ == old(self)@.after_outcome(preferred_provider, winner_provider),
    {
        self.total_hedged_requests = self.total_hedged_requests.saturating_add(1);
        if preferred_provider != winner_provider {
            self.hedge_win_count = self.hedge_win_count.saturating_add(1);
        }
    }

    /// Decides now how many of the ranked providers to race.
    pub fn decide_hedge_width(&mut self, ranked_candidates: &[usize]) -> (decision: HedgeDecision)
        ensures
            exists|now: u128| #[trigger]
                decides(*old(self), ranked_candidates@, now, *final(self), decision),
    {
        let now: u128 = self.clock.now().monotonic_ns;
        self.decide_hedge_width_at(ranked_candidates, now)
    }

    /// Decides at the given time how many of the ranked providers to race.
    pub fn decide_hedge_width_at(&mut self, ranked_candidates: &[usize], now_ns: u128) -> (decision:
        HedgeDecision)
        ensures
            decides(*old(self), ranked_candidates@, now_ns, *final(self), decision),
    {
        self.observe(now_ns);
        self.last_latency_spread_ms = match p95_latency_spread_ms(
            &self.provider_latency_samples,
            ranked_candidates,
        ) {
            Some(millis) => millis,
            None => 0,
        };
        let requests: usize = self.last_observed_requests;
        let spread_ms: u64 = self.last_latency_spread_ms;
        let available: usize = ranked_candidates.len();
        let min_width: usize = self.config.normalized_min_hedge_width().min(available);
        let max_width: usize = self.config.normalized_max_hedge_width().min(available);
        let (width, reason): (usize, HedgeReason) = if available == 0 {
            (0, HedgeReason::NoCandidates)
        } else if !self.config.enabled {
            (1, HedgeReason::AdaptiveDisabled)
        } else if requests >= self.config.high_load_requests {
            (min_width, HedgeReason::HighLoad)
        } else if spread_ms >= self.config.high_latency_spread_ms {
            (max_width, HedgeReason::HighLatencyVariance)
        } else if spread_ms >= self.config.medium_latency_spread_ms {
            if requests >= self.config.medium_load_requests {
                (min_width, HedgeReason::ModerateVarianceModerateLoad)
            } else if min_width < max_width {
                (min_width + 1, HedgeReason::ModerateVarianceLowLoad)
            } else {
                (max_width, HedgeReason::ModerateVarianceLowLoad)
            }
        } else {
            (min_width, HedgeReason::LowVariance)
        };
        self.last_decision_reason = Some(reason);
        HedgeDecision {
            hedge_width: width,
            observed_requests: requests,
            observed_latency_spread_ms: spread_ms,
            reason,
        }
    }

    /// What is known of the races so far.
    pub fn stats_snapshot(&self) -> (stats: HedgingStatsView)
        ensures
            stats == stats_of(self@),
    {
        HedgingStatsView {
            adaptive_enabled: self.config.enabled,
            total_hedged_requests: self.total_hedged_requests,
            hedge_win_count: self.hedge_win_count,
            observed_requests: self.last_observed_requests,
            observed_window_secs: self.config.normalized_rps_window_secs(),
            observed_latency_spread_ms: self.last_latency_spread_ms,
            min_hedge_width: self.config.normalized_min_hedge_width(),
            max_hedge_width: self.config.normalized_max_hedge_width(),
            last_decision_reason: self.last_decision_reason,
        }
    }
}

/// The controller before it has seen anything: it keeps samples of one provider
/// at least.
pub open spec fn fresh_view(config: AdaptiveHedgingConfig, provider_count: nat) -> AdaptiveView {
    AdaptiveView {
        config,
        timestamps: Seq::empty(),
        samples: Seq::new(
            if provider_count < 1 {
                1
            } else {
                provider_count
            },
            |k: int| Seq::<u64>::empty(),
        ),
        total_hedged_requests: 0,
        hedge_win_count: 0,
        last_observed_requests: 0,
        last_latency_spread_ms: 0,
        last_decision_reason: None,
    }
}

/// Whether a controller comes to this decision at this time.
pub open spec fn decides(
    before: AdaptiveHedgingController,
    ranked: Seq<usize>,
    now: u128,
    after: AdaptiveHedgingController,
    decision: HedgeDecision,
) -> bool {
    &&& after@ == before@.after_decision(ranked, now)
    &&& decision.hedge_width == before@.decision(ranked, now).0
    &&& decision.reason == before@.decision(ranked, now).1
    &&& decision.observed_requests == before@.observed_at(now).timestamps.len()
    &&& decision.observed_latency_spread_ms == before@.spread_or_zero(ranked)
}

/// What a controller in the given state reports.
pub open spec fn stats_of(state: AdaptiveView) -> HedgingStatsView {
    HedgingStatsView {
        adaptive_enabled: state.config.enabled,
        total_hedged_requests: state.total_hedged_requests,
        hedge_win_count: state.hedge_win_count,
        observed_requests: state.last_observed_requests,
        observed_window_secs: state.config.window_secs() as u64,
        observed_latency_spread_ms: state.last_latency_spread_ms,
        min_hedge_width: state.config.min_width() as usize,
        max_hedge_width: state.config.max_width() as usize,
        last_decision_reason: state.last_decision_reason,
    }
}

/// A race is never wider than there are candidates and, wherever there is one, at
/// least one wide; with adaptive hedging it keeps within the configured widths as
/// far as there are candidates.
pub proof fn width_keeps_within_bounds(
    config: AdaptiveHedgingConfig,
    requests: nat,
    spread_ms: u64,
    available: nat,
)
    ensures
        ({
            let (width, _) = width_and_reason(config, requests, spread_ms, available);
            &&& width <= available
            &&& available > 0 ==> width >= 1
            &&& available > 0 && config.enabled ==> at_most(config.min_width(), available)
                <= width <= at_most(config.max_width(), available)
        }),
{
}

/// Under high load a race is as narrow as is allowed, however far apart the
/// latencies lie; under less load it is as wide as is allowed where they lie far
/// apart.
pub proof fn load_narrows_and_variance_widens(
    config: AdaptiveHedgingConfig,
    requests: nat,
    spread_ms: u64,
    available: nat,
)
    requires
        config.enabled,
        available > 0,
    ensures
        requests >= config.high_load_requests ==> width_and_reason(
            config,
            requests,
            spread_ms,
            available,
        ) == (at_most(config.min_width(), available), HedgeReason::HighLoad),
        requests < config.high_load_requests && spread_ms >= config.high_latency_spread_ms
            ==> width_and_reason(config, requests, spread_ms, available) == (
            at_most(config.max_width(), available),
            HedgeReason::HighLatencyVariance,
        ),
{
}

/// Old requests age out: of requests that came in one after the other, exactly
/// those are left that lie within the window, in their order.
pub proof fn old_requests_age_out(timestamps: Seq<u128>, now: u128, window: nat)
    requires
        forall|i: int, j: int| 0 <= i < j < timestamps.len() ==> timestamps[i] <= timestamps[j],
    ensures
        pruned(timestamps, now, window) == timestamps.filter(|t: u128| now - t <= window),
    decreases timestamps.len(),
{
    let within = |t: u128| now - t <= window;
    if timestamps.len() > 0 && now - timestamps[0] > window {
        let rest = timestamps.skip(1);
        old_requests_age_out(rest, now, window);
        assert(timestamps =~= seq![timestamps[0]] + rest);
        Seq::filter_distributes_over_add(seq![timestamps[0]], rest, within);
        reveal_with_fuel(Seq::filter, 2);
        assert(seq![timestamps[0]].drop_last() =~= Seq::<u128>::empty());
        assert(seq![timestamps[0]].filter(within) =~= Seq::<u128>::empty());
        assert(timestamps.filter(within) =~= rest.filter(within));
    } else {
        assert forall|i: int| 0 <= i < timestamps.len() implies within(
            #[trigger] timestamps[i],
        ) by {
            assert(timestamps[0] <= timestamps[i]);
        }
        lemma_filter_keeps_all(timestamps, within);
    }
}

proof fn lemma_filter_keeps_all(timestamps: Seq<u128>, keep: spec_fn(u128) -> bool)
    requires
        forall|i: int| 0 <= i < timestamps.len() ==> keep(#[trigger] timestamps[i]),
    ensures
        timestamps.filter(keep) == timestamps,
    decreases timestamps.len(),
{
    reveal(Seq::filter);
    if timestamps.len() > 0 {
        let before = timestamps.drop_last();
        assert forall|i: int| 0 <= i < before.len() implies keep(#[trigger] before[i]) by {
            assert(before[i] == timestamps[i]);
        }
        lemma_filter_keeps_all(before, keep);
        assert(keep(timestamps[timestamps.len() - 1]));
        assert(before.push(timestamps.last()) =~= timestamps);
    }
}

/// No provider ever has more samples than are to be kept.
pub proof fn samples_stay_bounded(state: AdaptiveView, provider: usize, latency_ms: u64)
    requires
        forall|i: int|
            0 <= i < state.samples.len() ==> (#[trigger] state.samples[i]).len()
                <= state.config.sample_limit(),
    ensures
        forall|i: int|
            0 <= i < state.samples.len() ==> (#[trigger] state.after_latency(
                provider,
                latency_ms,
            ).samples[i]).len() <= state.config.sample_limit(),
        state.after_latency(provider, latency_ms).samples.len() == state.samples.len(),
{
}

/// Races that another provider than the preferred one won never outnumber the
/// races.
pub proof fn wins_never_outnumber_races(state: AdaptiveView, preferred: usize, winner: usize)
    requires
        state.hedge_win_count <= state.total_hedged_requests,
    ensures
        state.after_outcome(preferred, winner).hedge_win_count <= state.after_outcome(
            preferred,
            winner,
        ).total_hedged_requests,
{
}

/// How wide a race is, under all loads and spreads of latency. The configured widths
/// count as far as there are candidates: the smallest under high load, under low
/// variance, and under moderate variance with moderate load; the largest under high
/// variance; and one more than the smallest, up to the largest, under moderate
/// variance with low load.
pub proof fn width_follows_load_and_variance(
    config: AdaptiveHedgingConfig,
    requests: nat,
    spread_ms: u64,
    available: nat,
)
    requires
        config.enabled,
        available > 0,
    ensures
        ({
            let floor = if config.min_hedge_width >= 1 {
                config.min_hedge_width as nat
            } else {
                1
            };
            let ceiling = if config.max_hedge_width >= floor {
                config.max_hedge_width as nat
            } else {
                floor
            };
            let least = if floor <= available {
                floor
            } else {
                available
            };
            let most = if ceiling <= available {
                ceiling
            } else {
                available
            };
            let (width, reason) = width_and_reason(config, requests, spread_ms, available);
            let high_load = requests >= config.high_load_requests;
            let medium_load = requests >= config.medium_load_requests;
            let high_spread = spread_ms >= config.high_latency_spread_ms;
            let medium_spread = spread_ms >= config.medium_latency_spread_ms;
            &&& high_load ==> width == least && reason == HedgeReason::HighLoad
            &&& !high_load && high_spread ==> width == most && reason
                == HedgeReason::HighLatencyVariance
            &&& !high_load && !high_spread && !medium_spread ==> width == least && reason
                == HedgeReason::LowVariance
            &&& !high_load && !high_spread && medium_spread && medium_load ==> width == least
                && reason == HedgeReason::ModerateVarianceModerateLoad
            &&& !high_load && !high_spread && medium_spread && !medium_load && least < most
                ==> width == least + 1 && reason == HedgeReason::ModerateVarianceLowLoad
            &&& !high_load && !high_spread && medium_spread && !medium_load && least == most
                ==> width == most && reason == HedgeReason::ModerateVarianceLowLoad
        }),
{
}

/// Without adaptive hedging one provider is called, and without candidates none.
pub proof fn no_race_without_hedging_or_candidates(
    config: AdaptiveHedgingConfig,
    requests: nat,
    spread_ms: u64,
    available: nat,
)
    ensures
        available == 0 ==> width_and_reason(config, requests, spread_ms, available) == (
            0nat,
            HedgeReason::NoCandidates,
        ),
        available > 0 && !config.enabled ==> width_and_reason(
            config,
            requests,
            spread_ms,
            available,
        ) == (1nat, HedgeReason::AdaptiveDisabled),
{
}

/// The decision on a race goes by the requests of the configured number of seconds,
/// by the spread of the candidates' latencies, and by how many candidates there are;
/// it leaves the samples and the counts as they are.
pub proof fn decisions_go_by_recent_requests(state: AdaptiveView, ranked: Seq<usize>, now: u128)
    requires
        forall|i: int, j: int|
            0 <= i < j < state.timestamps.len() ==> state.timestamps[i] <= state.timestamps[j],
        state.timestamps.len() <= usize::MAX,
    ensures
        ({
            let seconds = if state.config.rps_window_secs >= 1 {
                state.config.rps_window_secs as int
            } else {
                1
            };
            let recent = state.timestamps.filter(|t: u128| now - t <= seconds * 1_000_000_000);
            let spread_ms = match spread(state.samples, ranked) {
                Some(millis) => millis,
                None => 0,
            };
            let after = state.after_decision(ranked, now);
            &&& state.decision(ranked, now) == width_and_reason(
                state.config,
                recent.len(),
                spread_ms,
                ranked.len(),
            )
            &&& after.timestamps == recent
            &&& after.last_observed_requests == recent.len()
            &&& after.last_latency_spread_ms == spread_ms
            &&& after.last_decision_reason == Some(state.decision(ranked, now).1)
            &&& after.samples == state.samples && after.config == state.config
            &&& after.total_hedged_requests == state.total_hedged_requests
            &&& after.hedge_win_count == state.hedge_win_count
        }),
{
    let seconds = if state.config.rps_window_secs >= 1 {
        state.config.rps_window_secs as int
    } else {
        1
    };
    let within = |t: u128| now - t <= seconds * 1_000_000_000;
    old_requests_age_out(state.timestamps, now, state.window_ns());
    assert(state.window_ns() == seconds * 1_000_000_000);
    let other = |t: u128| now - t <= state.window_ns();
    assert(within =~= other);
    state.timestamps.lemma_filter_len(within);
}

/// A request that comes in is counted with those before it that lie within the
/// window, and is the last of them.
pub proof fn requests_are_counted(state: AdaptiveView, now: u128)
    requires
        forall|i: int, j: int|
            0 <= i < j < state.timestamps.len() ==> state.timestamps[i] <= state.timestamps[j],
        forall|i: int| 0 <= i < state.timestamps.len() ==> #[trigger] state.timestamps[i] <= now,
        state.timestamps.len() < usize::MAX,
    ensures
        ({
            let seconds = if state.config.rps_window_secs >= 1 {
                state.config.rps_window_secs as int
            } else {
                1
            };
            let recent = state.timestamps.filter(|t: u128| now - t <= seconds * 1_000_000_000);
            let after = state.after_request(now);
            &&& after.timestamps == recent.push(now)
            &&& after.last_observed_requests == recent.len() + 1
            &&& after.samples == state.samples && after.config == state.config
            &&& after.total_hedged_requests == state.total_hedged_requests
            &&& after.hedge_win_count == state.hedge_win_count
        }),
{
    let seconds = if state.config.rps_window_secs >= 1 {
        state.config.rps_window_secs as int
    } else {
        1
    };
    let within = |t: u128| now - t <= seconds * 1_000_000_000;
    let all = state.timestamps.push(now);
    assert forall|i: int, j: int| 0 <= i < j < all.len() implies all[i] <= all[j] by {
        assert(all[i] == state.timestamps[i]);
    }
    old_requests_age_out(all, now, state.window_ns());
    assert(state.window_ns() == seconds * 1_000_000_000);
    let other = |t: u128| now - t <= state.window_ns();
    assert(within =~= other);
    assert(all.drop_last() =~= state.timestamps);
    reveal(Seq::filter);
    assert(within(now));
    state.timestamps.lemma_filter_len(within);
}

/// The latency of a provider is kept as its last one, with as many of those before
/// it as are to be kept, five at least; nothing else changes.
pub proof fn latencies_are_kept_in_order(
    state: AdaptiveView,
    provider: usize,
    latency_ms: u64,
    other: int,
)
    requires
        provider < state.samples.len(),
        0 <= other < state.samples.len(),
    ensures
        ({
            let after = state.after_latency(provider, latency_ms);
            let limit = if state.config.max_latency_samples >= 5 {
                state.config.max_latency_samples as int
            } else {
                5
            };
            let all = state.samples[provider as int].push(latency_ms);
            let kept = after.samples[provider as int];
            &&& kept.len() == (if all.len() <= limit {
                all.len() as int
            } else {
                limit
            })
            &&& kept == all.skip(all.len() - kept.len())
            &&& kept.last() == latency_ms
            &&& other != provider ==> after.samples[other] == state.samples[other]
            &&& after == (AdaptiveView { samples: after.samples, ..state })
        }),
{
    let all = state.samples[provider as int].push(latency_ms);
    assert(all.skip(0) =~= all);
}

/// The 95th percentile of samples is, of all of them in ascending order, the first
/// up to which 95 in 100 lie.
pub proof fn p95_is_the_95th_percentile(samples: Seq<u64>, ordered: Seq<u64>, place: int)
    requires
        ordered.to_multiset() == samples.to_multiset(),
        forall|i: int, j: int| 0 <= i < j < ordered.len() ==> ordered[i] <= ordered[j],
        0 <= place < samples.len(),
        100 * (place + 1) >= 95 * samples.len(),
        100 * place < 95 * samples.len(),
    ensures
        p95(samples) == ordered[place],
{
    let leq = |a: u64, b: u64| a <= b;
    assert(total_ordering(leq));
    samples.lemma_sort_by_ensures(leq);
    assert(sorted_by(ordered, leq));
    lemma_sorted_unique(ordered, samples.sort_by(leq), leq);
    assert(place == samples.len() - samples.len() / 20 - 1);
}

/// The spread is the largest distance between the 95th percentiles of two candidates
/// of which there are samples: no two lie further apart, and two lie as far.
pub proof fn spread_is_the_largest_distance(
    samples: Seq<Seq<u64>>,
    ranked: Seq<usize>,
    first: int,
    second: int,
)
    requires
        0 <= first < ranked.len(),
        0 <= second < ranked.len(),
        first != second,
        ranked[first] < samples.len(),
        ranked[second] < samples.len(),
        samples[ranked[first] as int].len() > 0,
        samples[ranked[second] as int].len() > 0,
    ensures
        spread(samples, ranked) is Some,
        p95(samples[ranked[first] as int]) - p95(samples[ranked[second] as int]) <= spread(
            samples,
            ranked,
        )->0,
        exists|i: int, k: int|
            #![trigger ranked[i], ranked[k]]
            0 <= i < ranked.len() && 0 <= k < ranked.len() && ranked[i] < samples.len()
                && ranked[k] < samples.len() && samples[ranked[i] as int].len() > 0
                && samples[ranked[k] as int].len() > 0 && p95(samples[ranked[i] as int]) - p95(
                samples[ranked[k] as int],
            ) == spread(samples, ranked)->0,
{
    let values = p95_values(samples, ranked);
    lemma_p95_present(samples, ranked, first);
    lemma_p95_present(samples, ranked, second);
    lemma_p95_count(samples, ranked, first, second);
    let a = choose|a: int|
        0 <= a < values.len() && #[trigger] values[a] == p95(samples[ranked[first] as int]);
    let b = choose|b: int|
        0 <= b < values.len() && #[trigger] values[b] == p95(samples[ranked[second] as int]);
    lemma_extremes(values);
    assert(values[a] <= largest(values));
    assert(smallest(values) <= values[b]);
    let high = choose|c: int| 0 <= c < values.len() && #[trigger] values[c] == largest(values);
    let low = choose|c: int| 0 <= c < values.len() && #[trigger] values[c] == smallest(values);
    assert(values[low] <= largest(values));
    lemma_p95_source(samples, ranked, high);
    lemma_p95_source(samples, ranked, low);
    let i = choose|i: int|
        0 <= i < ranked.len() && (#[trigger] ranked[i]) < samples.len() && samples[ranked[i] as int].len() > 0
            && p95(samples[ranked[i] as int]) == values[high];
    let k = choose|k: int|
        0 <= k < ranked.len() && (#[trigger] ranked[k]) < samples.len() && samples[ranked[k] as int].len() > 0
            && p95(samples[ranked[k] as int]) == values[low];
    assert(p95(samples[ranked[i] as int]) - p95(samples[ranked[k] as int]) == spread(
        samples,
        ranked,
    )->0);
}

/// Of fewer than two candidates with samples no spread is known.
pub proof fn no_spread_of_a_single_candidate(
    samples: Seq<Seq<u64>>,
    ranked: Seq<usize>,
    only: int,
)
    requires
        forall|i: int|
            0 <= i < ranked.len() && i != only ==> (#[trigger] ranked[i]) >= samples.len()
                || samples[ranked[i] as int].len() == 0,
    ensures
        spread(samples, ranked) is None,
{
    lemma_single_p95(samples, ranked, only);
}

proof fn lemma_single_p95(samples: Seq<Seq<u64>>, ranked: Seq<usize>, only: int)
    requires
        forall|i: int|
            0 <= i < ranked.len() && i != only ==> (#[trigger] ranked[i]) >= samples.len()
                || samples[ranked[i] as int].len() == 0,
    ensures
        p95_values(samples, ranked).len() <= 1,
        !(0 <= only < ranked.len()) ==> p95_values(samples, ranked).len() == 0,
    decreases ranked.len(),
{
    if ranked.len() > 0 {
        let before = ranked.drop_last();
        assert forall|i: int| 0 <= i < before.len() && i != only implies (#[trigger] before[i])
            >= samples.len() || samples[before[i] as int].len() == 0 by {
            assert(before[i] == ranked[i]);
        }
        lemma_single_p95(samples, before, only);
        assert(ranked[ranked.len() - 1] == ranked.last());
    }
}

proof fn lemma_p95_present(samples: Seq<Seq<u64>>, ranked: Seq<usize>, index: int)
    requires
        0 <= index < ranked.len(),
        ranked[index] < samples.len(),
        samples[ranked[index] as int].len() > 0,
    ensures
        exists|c: int|
            0 <= c < p95_values(samples, ranked).len() && #[trigger] p95_values(samples, ranked)[c]
                == p95(samples[ranked[index] as int]),
    decreases ranked.len(),
{
    let before = ranked.drop_last();
    let values = p95_values(samples, ranked);
    if index < before.len() {
        assert(before[index] == ranked[index]);
        lemma_p95_present(samples, before, index);
        let c = choose|c: int|
            0 <= c < p95_values(samples, before).len() && #[trigger] p95_values(samples, before)[c]
                == p95(samples[ranked[index] as int]);
        assert(values[c] == p95_values(samples, before)[c]);
    } else {
        assert(values[values.len() - 1] == p95(samples[ranked[index] as int]));
    }
}

proof fn lemma_p95_count(samples: Seq<Seq<u64>>, ranked: Seq<usize>, first: int, second: int)
    requires
        0 <= first < ranked.len(),
        0 <= second < ranked.len(),
        first != second,
        ranked[first] < samples.len(),
        ranked[second] < samples.len(),
        samples[ranked[first] as int].len() > 0,
        samples[ranked[second] as int].len() > 0,
    ensures
        p95_values(samples, ranked).len() >= 2,
    decreases ranked.len(),
{
    let before = ranked.drop_last();
    if first < before.len() && second < before.len() {
        assert(before[first] == ranked[first] && before[second] == ranked[second]);
        lemma_p95_count(samples, before, first, second);
    } else if first < before.len() {
        assert(before[first] == ranked[first]);
        lemma_p95_present(samples, before, first);
    } else {
        assert(before[second] == ranked[second]);
        lemma_p95_present(samples, before, second);
    }
}

proof fn lemma_p95_source(samples: Seq<Seq<u64>>, ranked: Seq<usize>, value: int)
    requires
        0 <= value < p95_values(samples, ranked).len(),
    ensures
        exists|i: int|
            0 <= i < ranked.len() && (#[trigger] ranked[i]) < samples.len() && samples[ranked[i] as int].len()
                > 0 && p95(samples[ranked[i] as int]) == p95_values(samples, ranked)[value],
    decreases ranked.len(),
{
    let before = ranked.drop_last();
    let values = p95_values(samples, before);
    if value < values.len() {
        lemma_p95_source(samples, before, value);
        let i = choose|i: int|
            0 <= i < before.len() && (#[trigger] before[i]) < samples.len() && samples[before[i] as int].len()
                > 0 && p95(samples[before[i] as int]) == values[value];
        assert(ranked[i] == before[i]);
    } else {
        assert(ranked[ranked.len() - 1] < samples.len());
    }
}

proof fn lemma_extremes(values: Seq<u64>)
    requires
        values.len() > 0,
    ensures
        forall|c: int| 0 <= c < values.len() ==> #[trigger] values[c] <= largest(values),
        forall|c: int| 0 <= c < values.len() ==> smallest(values) <= #[trigger] values[c],
        exists|c: int| 0 <= c < values.len() && #[trigger] values[c] == largest(values),
        exists|c: int| 0 <= c < values.len() && #[trigger] values[c] == smallest(values),
    decreases values.len(),
{
    let before = values.drop_last();
    let last = values.len() - 1;
    assert(values[last] == values.last());
    reveal_with_fuel(largest, 2);
    reveal_with_fuel(smallest, 2);
    if before.len() > 0 {
        lemma_extremes(before);
        let high = choose|c: int| 0 <= c < before.len() && #[trigger] before[c] == largest(before);
        let low = choose|c: int| 0 <= c < before.len() && #[trigger] before[c] == smallest(before);
        assert(values[high] == before[high]);
        assert(values[low] == before[low]);
        assert forall|c: int| 0 <= c < values.len() implies #[trigger] values[c] <= largest(
            values,
        ) && smallest(values) <= values[c] by {
            if c < last {
                assert(before[c] == values[c]);
            }
        }
    }
}

/// A race is counted once, and as one that another provider won exactly if the
/// preferred one did not; the counts stop at the largest number.
pub proof fn races_are_counted_once(state: AdaptiveView, preferred: usize, winner: usize)
    ensures
        ({
            let after = state.after_outcome(preferred, winner);
            &&& state.total_hedged_requests < u64::MAX ==> after.total_hedged_requests
                == state.total_hedged_requests + 1
            &&& state.hedge_win_count < u64::MAX && winner != preferred ==> after.hedge_win_count
                == state.hedge_win_count + 1
            &&& winner == preferred ==> after.hedge_win_count == state.hedge_win_count
            &&& after.total_hedged_requests >= state.total_hedged_requests
            &&& after.hedge_win_count >= state.hedge_win_count
            &&& after.timestamps == state.timestamps && after.samples == state.samples
        }),
{
}

/// The statistics report what was counted and last observed, and the configured
/// bounds.
pub proof fn statistics_report_the_state(state: AdaptiveView)
    ensures
        ({
            let stats = stats_of(state);
            &&& stats.adaptive_enabled == state.config.enabled
            &&& stats.total_hedged_requests == state.total_hedged_requests
            &&& stats.hedge_win_count == state.hedge_win_count
            &&& stats.observed_requests == state.last_observed_requests
            &&& stats.observed_latency_spread_ms == state.last_latency_spread_ms
            &&& stats.last_decision_reason == state.last_decision_reason
            &&& state.config.rps_window_secs >= 1 ==> stats.observed_window_secs
                == state.config.rps_window_secs
            &&& state.config.min_hedge_width >= 1 ==> stats.min_hedge_width
                == state.config.min_hedge_width
            &&& state.config.max_hedge_width >= state.config.min_hedge_width
                && state.config.max_hedge_width >= 1 ==> stats.max_hedge_width
                == state.config.max_hedge_width
        }),
        ({
            let fresh = fresh_view(state.config, state.samples.len());
            &&& fresh.timestamps.len() == 0
            &&& fresh.total_hedged_requests == 0 && fresh.hedge_win_count == 0
            &&& fresh.last_observed_requests == 0 && fresh.last_latency_spread_ms == 0
            &&& fresh.last_decision_reason is None
            &&& fresh.config == state.config
            &&& fresh.samples.len() >= state.samples.len()
            &&& forall|i: int| 0 <= i < fresh.samples.len() ==> (#[trigger] fresh.samples[i]).len()
                == 0
        }),
{
}

/// What is decided on a race, told by what the decision itself says it went by. With
/// hedging and candidates, the smallest width counts under high load, under low
/// variance, and under moderate variance with moderate load; the largest under high
/// variance; and one more than the smallest, up to the largest, under moderate
/// variance with low load; each as far as there are candidates. Without hedging one
/// provider is called, and without candidates none.
pub proof fn decisions_tell_what_they_went_by(
    before: AdaptiveHedgingController,
    ranked: Seq<usize>,
    now: u128,
    after: AdaptiveHedgingController,
    decision: HedgeDecision,
)
    requires
        decides(before, ranked, now, after, decision),
        before@.timestamps.len() <= usize::MAX,
    ensures
        ({
            let config = before@.config;
            let floor = if config.min_hedge_width >= 1 {
                config.min_hedge_width as nat
            } else {
                1
            };
            let ceiling = if config.max_hedge_width >= floor {
                config.max_hedge_width as nat
            } else {
                floor
            };
            let least = if floor <= ranked.len() {
                floor
            } else {
                ranked.len()
            };
            let most = if ceiling <= ranked.len() {
                ceiling
            } else {
                ranked.len()
            };
            let races = config.enabled && ranked.len() > 0;
            let high_load = decision.observed_requests >= config.high_load_requests;
            let medium_load = decision.observed_requests >= config.medium_load_requests;
            let spread_ms = decision.observed_latency_spread_ms;
            let high = spread_ms >= config.high_latency_spread_ms;
            let medium = spread_ms >= config.medium_latency_spread_ms;
            &&& ranked.len() == 0 ==> decision.hedge_width == 0 && decision.reason
                == HedgeReason::NoCandidates
            &&& ranked.len() > 0 && !config.enabled ==> decision.hedge_width == 1
                && decision.reason == HedgeReason::AdaptiveDisabled
            &&& races && high_load ==> decision.hedge_width == least && decision.reason
                == HedgeReason::HighLoad
            &&& races && !high_load && high ==> decision.hedge_width == most && decision.reason
                == HedgeReason::HighLatencyVariance
            &&& races && !high_load && !high && !medium ==> decision.hedge_width == least
                && decision.reason == HedgeReason::LowVariance
            &&& races && !high_load && !high && medium && medium_load ==> decision.hedge_width
                == least && decision.reason == HedgeReason::ModerateVarianceModerateLoad
            &&& races && !high_load && !high && medium && !medium_load ==> decision.hedge_width
                == (if least < most {
                least + 1
            } else {
                most
            }) && decision.reason == HedgeReason::ModerateVarianceLowLoad
            &&& after@.last_observed_requests == decision.observed_requests
            &&& after@.last_latency_spread_ms == spread_ms
            &&& after@.last_decision_reason == Some(decision.reason)
            &&& spread(before@.samples, ranked) is Some ==> spread(before@.samples, ranked)
                == Some(spread_ms)
            &&& spread(before@.samples, ranked) is None ==> spread_ms == 0
        }),
{
}

} // verus!
