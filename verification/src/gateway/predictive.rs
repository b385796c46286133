//! What is known of providers beyond their health: how far behind they are, how
//! much of their rate limit is left, and whether they serve requests yet.
use std::time::Duration;

use serde_json::Value;

use vstd::prelude::*;
use vstd::string::*;

use super::headroom::{is_headroom, parse_rate_limit_headroom, RateLimitHeadroom};
use crate::health::ProviderHealthSnapshot;
use crate::json::{json_get, json_tree, member, parse_json, parsed_json, JsonTree};
use crate::settings::{at_least, PredictiveScoringConfig, ProviderConfig, ShadowModeConfig};
use crate::text::{parse_u64, parsed_u64, strip_prefixes, trimmed, without_prefixes};
use crate::time::{duration_nanos, Clock, Moment, NANOS_PER_SEC};

verus! {

/// How far a provider is on its way into service. A provider in shadow mode is
/// promoted once it has been observed for long enough and often enough.
#[derive(Debug, Clone, Copy, PartialEq, Eq, Structural)]
pub struct ShadowProviderState {
    pub enabled: bool,
    pub promoted: bool,
    pub shadow_since_ns: Option<u128>,
    pub shadow_promoted_at_unix_ms: Option<u128>,
    pub warmup_secs: u64,
    pub min_observations: u64,
    pub observations: u64,
}

/// What is reported of a provider in shadow mode.
#[derive(Debug, Clone, Copy, PartialEq, Eq, Structural)]
pub struct ShadowStatusView {
    pub enabled: bool,
    pub live: bool,
    pub observations: u64,
    pub min_observations: u64,
    pub warmup_remaining_secs: Option<u64>,
    pub promoted_at_unix_ms: Option<u128>,
}

impl Default for ShadowStatusView {
    fn default() -> (status: ShadowStatusView)
        ensures
            status == no_shadow_status(),
    {
        ShadowStatusView {
            enabled: false,
            live: false,
            observations: 0,
            min_observations: 0,
            warmup_remaining_secs: None,
            promoted_at_unix_ms: None,
        }
    }
}

/// What is reported where there is no provider.
pub open spec fn no_shadow_status() -> ShadowStatusView {
    ShadowStatusView {
        enabled: false,
        live: false,
        observations: 0,
        min_observations: 0,
        warmup_remaining_secs: None,
        promoted_at_unix_ms: None,
    }
}

/// The time from one reading of the monotonic clock to another, none if the other
/// comes first.
pub open spec fn elapsed_ns(since: u128, now: u128) -> nat {
    if now >= since {
        (now - since) as nat
    } else {
        0
    }
}

impl ShadowProviderState {
    /// How a provider starts out: in service, unless it is in shadow mode.
    pub open spec fn initial(
        provider: ProviderConfig,
        config: ShadowModeConfig,
        now: Moment,
    ) -> ShadowProviderState {
        if config.enabled && provider.shadow_mode {
            ShadowProviderState {
                enabled: true,
                promoted: false,
                shadow_since_ns: Some(now.monotonic_ns),
                shadow_promoted_at_unix_ms: None,
                warmup_secs: provider.warmup_secs(
                    at_least(config.default_warmup_secs as int, 1) as u64,
                ) as u64,
                min_observations: provider.observations_needed(
                    at_least(config.default_min_observations as int, 1) as u64,
                ) as u64,
                observations: 0,
            }
        } else {
            ShadowProviderState {
                enabled: false,
                promoted: true,
                shadow_since_ns: None,
                shadow_promoted_at_unix_ms: Some(now.unix_ms),
                warmup_secs: 0,
                min_observations: 0,
                observations: 0,
            }
        }
    }

    /// Whether the provider has been observed for long enough.
    pub open spec fn warmed_up(self, now: Moment) -> bool {
        self.shadow_since_ns is Some && elapsed_ns(self.shadow_since_ns->0, now.monotonic_ns)
            >= self.warmup_secs * NANOS_PER_SEC
    }

    /// Whether the provider has been observed often enough.
    pub open spec fn observed_enough(self) -> bool {
        self.observations >= self.min_observations
    }

    /// The provider, promoted if it is ready.
    pub open spec fn promoted_if_ready(self, now: Moment) -> ShadowProviderState {
        if self.enabled && !self.promoted && self.warmed_up(now) && self.observed_enough() {
            ShadowProviderState {
                promoted: true,
                shadow_promoted_at_unix_ms: Some(now.unix_ms),
                ..self
            }
        } else {
            self
        }
    }

    /// The provider after an observation.
    pub open spec fn after_observation(self, now: Moment) -> ShadowProviderState {
        if self.enabled {
            ShadowProviderState {
                observations: if self.observations == u64::MAX {
                    u64::MAX
                } else {
                    (self.observations + 1) as u64
                },
                ..self
            }.promoted_if_ready(now)
        } else {
            self
        }
    }

    /// Whole seconds of the warm-up that are still to come.
    pub open spec fn warmup_left_secs(self, now: Moment) -> u64 {
        let warmup = self.warmup_secs * NANOS_PER_SEC;
        let elapsed = elapsed_ns(self.shadow_since_ns->0, now.monotonic_ns);
        (if elapsed >= warmup {
            0
        } else {
            (warmup - elapsed) / (NANOS_PER_SEC as int)
        }) as u64
    }

    /// What is reported of the provider.
    pub open spec fn status(self, now: Moment) -> ShadowStatusView {
        ShadowStatusView {
            enabled: self.enabled,
            live: self.promoted,
            observations: self.observations,
            min_observations: self.min_observations,
            warmup_remaining_secs: if self.enabled && !self.promoted && self.shadow_since_ns is Some {
                Some(self.warmup_left_secs(now))
            } else {
                None
            },
            promoted_at_unix_ms: self.shadow_promoted_at_unix_ms,
        }
    }

    pub fn new(provider: &ProviderConfig, config: &ShadowModeConfig, now: Moment) -> (state:
        ShadowProviderState)
        ensures
            state == ShadowProviderState::initial(*provider, *config, now),
    {
        if !(config.enabled && provider.shadow_mode) {
            return ShadowProviderState {
                enabled: false,
                promoted: true,
                shadow_since_ns: None,
                shadow_promoted_at_unix_ms: Some(now.unix_ms),
                warmup_secs: 0,
                min_observations: 0,
                observations: 0,
            };
        }
        ShadowProviderState {
            enabled: true,
            promoted: false,
            shadow_since_ns: Some(now.monotonic_ns),
            shadow_promoted_at_unix_ms: None,
            warmup_secs: provider.shadow_warmup_or_default(config.normalized_default_warmup_secs()),
            min_observations: provider.shadow_min_observations_or_default(
                config.normalized_default_min_observations(),
            ),
            observations: 0,
        }
    }

    pub fn promote_if_ready(&mut self, now: Moment)
        ensures
            *final(self) == old(self).promoted_if_ready(now),
    {
        if !self.enabled || self.promoted {
            return;
        }
        let since: u128 = match self.shadow_since_ns {
            Some(since) => since,
            None => {
                return;
            },
        };
        let warmup: u128 = (self.warmup_secs as u128) * NANOS_PER_SEC;
        let warmup_done: bool = now.monotonic_ns.saturating_sub(since) >= warmup;
        if warmup_done && self.observations >= self.min_observations {
            self.promoted = true;
            self.shadow_promoted_at_unix_ms = Some(now.unix_ms);
        }
    }

    pub fn record_observation(&mut self, now: Moment)
        ensures
            *final(self) == old(self).after_observation(now),
    {
        if !self.enabled {
            return;
        }
        self.observations = self.observations.saturating_add(1);
        self.promote_if_ready(now);
    }

    pub fn as_view(&self, now: Moment) -> (status: ShadowStatusView)
        ensures
            status == self.status(now),
    {
        let warmup_remaining_secs: Option<u64> = match self.shadow_since_ns {
            Some(since) => {
                if self.enabled && !self.promoted {
                    let warmup: u128 = (self.warmup_secs as u128) * NANOS_PER_SEC;
                    let elapsed: u128 = now.monotonic_ns.saturating_sub(since);
                    let left: u128 = warmup.saturating_sub(elapsed) / NANOS_PER_SEC;
                    Some(left as u64)
                } else {
                    None
                }
            },
            None => None,
        };
        ShadowStatusView {
            enabled: self.enabled,
            live: self.promoted,
            observations: self.observations,
            min_observations: self.min_observations,
            warmup_remaining_secs,
            promoted_at_unix_ms: self.shadow_promoted_at_unix_ms,
        }
    }
}

/// What is known of a provider.
#[derive(Debug, Clone, Copy)]
pub struct ProviderPredictiveState {
    pub latest_block: Option<u64>,
    pub rate_limit_headroom: Option<RateLimitHeadroom>,
    pub shadow: ShadowProviderState,
}

/// What a provider's score is made of.
#[derive(Debug, Clone, Copy)]
pub struct ProviderPredictiveView {
    /// Whether the score is made of this, rather than of the health alone.
    pub enabled: bool,
    /// Calls that succeeded, and calls in all.
    pub total_success: u64,
    pub total_calls: u64,
    /// The latency at which a provider counts as half as good as it could be.
    pub target_latency_ms: u64,
    /// How many blocks the provider lies behind the furthest one.
    pub block_lag: Option<u64>,
    /// The same, up to the most that counts.
    pub counted_block_lag: Option<u64>,
    pub max_block_lag: u64,
    pub rate_limit_headroom: Option<RateLimitHeadroom>,
    pub healthy: bool,
    /// The weight in percent, within the bounds in which it counts.
    pub weight_percent: u32,
    pub shadow: ShadowStatusView,
}

impl Default for ProviderPredictiveView {
    fn default() -> (view: ProviderPredictiveView)
        ensures
            view == unrated(),
    {
        ProviderPredictiveView {
            enabled: false,
            total_success: 0,
            total_calls: 0,
            target_latency_ms: 0,
            block_lag: None,
            counted_block_lag: None,
            max_block_lag: 0,
            rate_limit_headroom: None,
            healthy: false,
            weight_percent: 0,
            shadow: ShadowStatusView::default(),
        }
    }
}

/// What is said of a provider that there is not.
pub open spec fn unrated() -> ProviderPredictiveView {
    ProviderPredictiveView {
        enabled: false,
        total_success: 0,
        total_calls: 0,
        target_latency_ms: 0,
        block_lag: None,
        counted_block_lag: None,
        max_block_lag: 0,
        rate_limit_headroom: None,
        healthy: false,
        weight_percent: 0,
        shadow: no_shadow_status(),
    }
}

/// What scoring a provider comes to.
#[derive(Debug, Clone, Copy)]
pub struct ProviderScoringResult {
    /// Whether there is such a provider.
    pub rated: bool,
    /// Whether it is in service.
    pub is_live: bool,
    pub view: ProviderPredictiveView,
}

/// Keeps what is known of the providers.
pub struct PredictiveScoringController {
    enabled: bool,
    target_latency_ms: u64,
    max_block_lag: u64,
    block_lag_poll_interval_secs: u64,
    shadow_config: ShadowModeConfig,
    clock: Clock,
    providers: Vec<ProviderPredictiveState>,
}

/// The state of a controller.
#[verifier::ext_equal]
pub struct PredictiveView {
    pub enabled: bool,
    pub target_latency_ms: u64,
    pub max_block_lag: u64,
    pub poll_interval_secs: u64,
    pub shadow_config: ShadowModeConfig,
    pub providers: Seq<ProviderPredictiveState>,
}

/// The latest block that any of the providers is known to have.
pub open spec fn furthest_block(providers: Seq<ProviderPredictiveState>) -> Option<u64>
    decreases providers.len(),
{
    if providers.len() == 0 {
        None
    } else {
        match (furthest_block(providers.drop_last()), providers.last().latest_block) {
            (Some(before), Some(block)) => Some(
                if block > before {
                    block
                } else {
                    before
                },
            ),
            (None, block) => block,
            (before, None) => before,
        }
    }
}

/// The sum of two counts, up to the largest number.
pub open spec fn total_calls(snapshot: ProviderHealthSnapshot) -> u64 {
    if snapshot.total_success + snapshot.total_failures > u64::MAX {
        u64::MAX
    } else {
        (snapshot.total_success + snapshot.total_failures) as u64
    }
}

/// A weight within the bounds in which it counts.
pub open spec fn counted_weight(weight: u32) -> u32 {
    if weight < 10 {
        10
    } else if weight > 1000 {
        1000
    } else {
        weight
    }
}

impl PredictiveView {
    /// The controller before anything is known.
    pub open spec fn fresh(
        config: PredictiveScoringConfig,
        shadow_config: ShadowModeConfig,
        providers: Seq<ProviderConfig>,
        now: Moment,
    ) -> PredictiveView {
        PredictiveView {
            enabled: config.enabled,
            target_latency_ms: at_least(config.target_latency_ms as int, 1) as u64,
            max_block_lag: at_least(config.max_block_lag as int, 1) as u64,
            poll_interval_secs: at_least(config.block_lag_poll_interval_secs as int, 1) as u64,
            shadow_config,
            providers: providers.map_values(
                |provider: ProviderConfig|
                    ProviderPredictiveState {
                        latest_block: None,
                        rate_limit_headroom: None,
                        shadow: ShadowProviderState::initial(provider, shadow_config, now),
                    },
            ),
        }
    }

    /// The controller with something else known of one provider, if there is such
    /// a provider.
    pub open spec fn with_provider(
        self,
        index: usize,
        provider: ProviderPredictiveState,
    ) -> PredictiveView {
        if index < self.providers.len() {
            PredictiveView { providers: self.providers.update(index as int, provider), ..self }
        } else {
            self
        }
    }

    /// The controller when a provider has been promoted if it is ready.
    pub open spec fn promoting(self, index: usize, now: Moment) -> PredictiveView {
        let provider = self.providers[index as int];
        self.with_provider(
            index,
            ProviderPredictiveState { shadow: provider.shadow.promoted_if_ready(now), ..provider },
        )
    }

    /// The controller after a provider in shadow mode was observed.
    pub open spec fn after_observation(self, index: usize, now: Moment) -> PredictiveView {
        let provider = self.providers[index as int];
        self.with_provider(
            index,
            ProviderPredictiveState { shadow: provider.shadow.after_observation(now), ..provider },
        )
    }

    /// The controller after a provider said how much of its rate limit is left.
    pub open spec fn after_headroom(self, index: usize, headroom: RateLimitHeadroom) -> PredictiveView {
        self.with_provider(
            index,
            ProviderPredictiveState {
                rate_limit_headroom: Some(headroom),
                ..self.providers[index as int]
            },
        )
    }

    /// The controller after a provider said what its latest block is.
    pub open spec fn after_block(self, index: usize, block: u64) -> PredictiveView {
        self.with_provider(
            index,
            ProviderPredictiveState { latest_block: Some(block), ..self.providers[index as int] },
        )
    }

    /// How many blocks a provider lies behind the furthest one.
    pub open spec fn block_lag(self, index: usize) -> Option<u64> {
        match (self.providers[index as int].latest_block, furthest_block(self.providers)) {
            (Some(block), Some(furthest)) => Some(
                if furthest >= block {
                    (furthest - block) as u64
                } else {
                    0
                },
            ),
            _ => None,
        }
    }

    /// What scoring a provider comes to.
    pub open spec fn scoring(
        self,
        index: usize,
        snapshot: ProviderHealthSnapshot,
        static_weight: u32,
        now: Moment,
    ) -> ProviderScoringResult {
        if index < self.providers.len() {
            let provider = self.providers[index as int];
            let status = provider.shadow.promoted_if_ready(now).status(now);
            ProviderScoringResult {
                rated: true,
                is_live: status.live,
                view: ProviderPredictiveView {
                    enabled: self.enabled,
                    total_success: snapshot.total_success,
                    total_calls: total_calls(snapshot),
                    target_latency_ms: self.target_latency_ms,
                    block_lag: self.block_lag(index),
                    counted_block_lag: match self.block_lag(index) {
                        Some(lag) => Some(
                            if lag <= self.max_block_lag {
                                lag
                            } else {
                                self.max_block_lag
                            },
                        ),
                        None => None,
                    },
                    max_block_lag: self.max_block_lag,
                    rate_limit_headroom: provider.rate_limit_headroom,
                    healthy: snapshot.healthy,
                    weight_percent: counted_weight(static_weight),
                    shadow: status,
                },
            }
        } else {
            ProviderScoringResult { rated: false, is_live: false, view: unrated() }
        }
    }

    /// Whether requests are to be mirrored to a provider.
    pub open spec fn mirrors(self, index: usize, now: Moment) -> bool {
        let shadow = self.providers[index as int].shadow.promoted_if_ready(now);
        self.shadow_config.enabled && index < self.providers.len() && shadow.enabled
            && !shadow.promoted
    }
}

impl View for PredictiveScoringController {
    type V = PredictiveView;

    closed spec fn view(&self) -> PredictiveView {
        PredictiveView {
            enabled: self.enabled,
            target_latency_ms: self.target_latency_ms,
            max_block_lag: self.max_block_lag,
            poll_interval_secs: self.block_lag_poll_interval_secs,
            shadow_config: self.shadow_config,
            providers: self.providers@,
        }
    }
}

impl PredictiveScoringController {
    /// A controller for the given providers, which starts now.
    pub fn new(
        predictive_config: &PredictiveScoringConfig,
        shadow_config: ShadowModeConfig,
        providers: &[ProviderConfig],
    ) -> (controller: Self)
        ensures
            exists|now: Moment|
                controller@ == #[trigger] PredictiveView::fresh(
                    *predictive_config,
                    shadow_config,
                    providers@,
                    now,
                ),
    {
        let clock: Clock = Clock::start();
        Self::with_clock(predictive_config, shadow_config, providers, clock, clock.now())
    }

    /// A controller for the given providers, which reads the given clock and
    /// starts at the given time.
    pub fn with_clock(
        predictive_config: &PredictiveScoringConfig,
        shadow_config: ShadowModeConfig,
        providers: &[ProviderConfig],
        clock: Clock,
        now: Moment,
    ) -> (controller: Self)
        ensures
            controller@ == PredictiveView::fresh(
                *predictive_config,
                shadow_config,
                providers@,
                now,
            ),
    {
        let mut states: Vec<ProviderPredictiveState> = Vec::new();
        let ghost expected = PredictiveView::fresh(
            *predictive_config,
            shadow_config,
            providers@,
            now,
        ).providers;
        let mut i: usize = 0;
        while i < providers.len()
            invariant
                i <= providers@.len(),
                expected == PredictiveView::fresh(
                    *predictive_config,
                    shadow_config,
                    providers@,
                    now,
                ).providers,
                states@ == expected.take(i as int),
            decreases providers@.len() - i,
        {
            states.push(
                ProviderPredictiveState {
                    latest_block: None,
                    rate_limit_headroom: None,
                    shadow: ShadowProviderState::new(&providers[i], &shadow_config, now),
                },
            );
            i = i + 1;
            assert(states@ =~= expected.take(i as int));
        }
        assert(states@ =~= expected);
        PredictiveScoringController {
            enabled: predictive_config.enabled,
            target_latency_ms: predictive_config.normalized_target_latency_ms(),
            max_block_lag: predictive_config.normalized_max_block_lag(),
            block_lag_poll_interval_secs: predictive_config.block_lag_poll_interval_secs.max(1),
            shadow_config,
            clock,
            providers: states,
        }
    }

    fn furthest(&self) -> (block: Option<u64>)
        ensures
            block == furthest_block(self@.providers),
    {
        let mut furthest: Option<u64> = None;
        let mut i: usize = 0;
        while i < self.providers.len()
            invariant
                i <= self.providers@.len(),
                furthest == furthest_block(self.providers@.take(i as int)),
            decreases self.providers@.len() - i,
        {
            assert(self.providers@.take(i + 1).drop_last() =~= self.providers@.take(i as int));
            if let Some(block) = self.providers[i].latest_block {
                furthest = match furthest {
                    Some(before) => Some(before.max(block)),
                    None => Some(block),
                };
            }
            i = i + 1;
        }
        assert(self.providers@.take(i as int) =~= self.providers@);
        furthest
    }

    /// Scores a provider now, given its health and weight.
    pub fn score_provider(
        &mut self,
        provider_index: usize,
        snapshot: &ProviderHealthSnapshot,
        static_weight: u32,
    ) -> (result: ProviderScoringResult)
        ensures
            exists|now: Moment|
                result == #[trigger] old(self)@.scoring(
                    provider_index,
                    *snapshot,
                    static_weight,
                    now,
                ) && final(self)@ == old(self)@.promoting(provider_index, now),
    {
        let now: Moment = self.clock.now();
        self.score_provider_at(provider_index, snapshot, static_weight, now)
    }

    /// Scores a provider at the given time, given its health and weight.
    pub fn score_provider_at(
        &mut self,
        provider_index: usize,
        snapshot: &ProviderHealthSnapshot,
        static_weight: u32,
        now: Moment,
    ) -> (result: ProviderScoringResult)
        ensures
            result == old(self)@.scoring(provider_index, *snapshot, static_weight, now),
            final(self)@ == old(self)@.promoting(provider_index, now),
    {
        let max_observed_block: Option<u64> = self.furthest();
        if provider_index >= self.providers.len() {
            return ProviderScoringResult {
                rated: false,
                is_live: false,
                view: ProviderPredictiveView::default(),
            };
        }
        let mut provider: ProviderPredictiveState = self.providers[provider_index];
        provider.shadow.promote_if_ready(now);
        self.providers.set(provider_index, provider);
        let block_lag: Option<u64> = match (provider.latest_block, max_observed_block) {
            (Some(block), Some(furthest)) => Some(furthest.saturating_sub(block)),
            _ => None,
        };
        let counted_block_lag: Option<u64> = match block_lag {
            Some(lag) => Some(lag.min(self.max_block_lag)),
            None => None,
        };
        let shadow: ShadowStatusView = provider.shadow.as_view(now);
        ProviderScoringResult {
            rated: true,
            is_live: shadow.live,
            view: ProviderPredictiveView {
                enabled: self.enabled,
                total_success: snapshot.total_success,
                total_calls: snapshot.total_success.saturating_add(snapshot.total_failures),
                target_latency_ms: self.target_latency_ms,
                block_lag,
                counted_block_lag,
                max_block_lag: self.max_block_lag,
                rate_limit_headroom: provider.rate_limit_headroom,
                healthy: snapshot.healthy,
                weight_percent: static_weight.max(10).min(1000),
                shadow,
            },
        }
    }

    /// Decides now whether requests are to be mirrored to a provider.
    pub fn should_mirror_provider(&mut self, provider_index: usize) -> (mirror: bool)
        ensures
            exists|now: Moment| #[trigger]
                mirror_decision(old(self)@, provider_index, now, final(self)@, mirror),
    {
        let now: Moment = self.clock.now();
        self.should_mirror_provider_at(provider_index, now)
    }

    /// Decides at the given time whether requests are to be mirrored to a
    /// provider.
    pub fn should_mirror_provider_at(&mut self, provider_index: usize, now: Moment) -> (mirror: bool)
        ensures
            mirror_decision(old(self)@, provider_index, now, final(self)@, mirror),
    {
        if !self.shadow_config.enabled || provider_index >= self.providers.len() {
            return false;
        }
        let mut provider: ProviderPredictiveState = self.providers[provider_index];
        provider.shadow.promote_if_ready(now);
        self.providers.set(provider_index, provider);
        provider.shadow.enabled && !provider.shadow.promoted
    }

    /// A provider in shadow mode is observed now.
    pub fn record_shadow_observation(&mut self, provider_index: usize)
        ensures
            exists|now: Moment|
                final(self)@ == #[trigger] old(self)@.after_observation(provider_index, now),
    {
        let now: Moment = self.clock.now();
        self.record_shadow_observation_at(provider_index, now);
    }

    /// A provider in shadow mode is observed at the given time.
    pub fn record_shadow_observation_at(&mut self, provider_index: usize, now: Moment)
        ensures
            final(self)@ == old(self)@.after_observation(provider_index, now),
    {
        if provider_index < self.providers.len() {
            let mut provider: ProviderPredictiveState = self.providers[provider_index];
            provider.shadow.record_observation(now);
            self.providers.set(provider_index, provider);
        }
    }

    /// Keeps what a provider's headers say of its rate limit, if they say it.
    pub fn record_rate_limit_headers(
        &mut self,
        provider_index: usize,
        headers: &Vec<(String, String)>,
    ) -> (headroom: Option<RateLimitHeadroom>)
        ensures
            is_headroom(headers@, headroom),
            final(self)@ == (match headroom {
                Some(h) => old(self)@.after_headroom(provider_index, h),
                None => old(self)@,
            }),
    {
        let headroom: Option<RateLimitHeadroom> = parse_rate_limit_headroom(headers);
        if let Some(h) = headroom {
            self.record_rate_limit_headroom(provider_index, h);
        }
        headroom
    }

    /// Keeps how much of a provider's rate limit is left.
    pub fn record_rate_limit_headroom(&mut self, provider_index: usize, headroom: RateLimitHeadroom)
        ensures
            final(self)@ == old(self)@.after_headroom(provider_index, headroom),
    {
        if provider_index < self.providers.len() {
            let mut provider: ProviderPredictiveState = self.providers[provider_index];
            provider.rate_limit_headroom = Some(headroom);
            self.providers.set(provider_index, provider);
        }
    }

    /// Keeps what a provider's latest block is.
    pub fn record_block_height(&mut self, provider_index: usize, block_height: u64)
        ensures
            final(self)@ == old(self)@.after_block(provider_index, block_height),
    {
        if provider_index < self.providers.len() {
            let mut provider: ProviderPredictiveState = self.providers[provider_index];
            provider.latest_block = Some(block_height);
            self.providers.set(provider_index, provider);
        }
    }

    pub fn mirror_max_providers(&self) -> (providers: usize)
        ensures
            providers == self@.shadow_config.mirror_limit(),
    {
        self.shadow_config.normalized_mirror_max_providers()
    }

    pub fn predictive_enabled(&self) -> (enabled: bool)
        ensures
            enabled == self@.enabled,
    {
        self.enabled
    }

    pub fn block_lag_poll_interval(&self) -> (interval: Duration)
        ensures
            duration_nanos(interval) == self@.poll_interval_secs * NANOS_PER_SEC,
    {
        Duration::from_secs(self.block_lag_poll_interval_secs)
    }
}

/// Whether a controller decides so on mirroring, and is left so.
pub open spec fn mirror_decision(
    before: PredictiveView,
    index: usize,
    now: Moment,
    after: PredictiveView,
    mirror: bool,
) -> bool {
    &&& mirror == before.mirrors(index, now)
    &&& after == if before.shadow_config.enabled {
        before.promoting(index, now)
    } else {
        before
    }
}

/// The block number that a text spells out: in hexadecimal after `0x`, else in
/// decimal.
pub open spec fn block_number_in_text(text: Seq<char>) -> Option<u64> {
    let inner = trimmed(text);
    if "0x"@.is_prefix_of(inner) || "0X"@.is_prefix_of(inner) {
        parsed_u64(without_prefixes(without_prefixes(inner, "0x"@), "0X"@), 16)
    } else {
        parsed_u64(inner, 10)
    }
}

/// The block number that a response holds as its result.
pub open spec fn block_number(tree: JsonTree) -> Option<u64> {
    match member(tree, "result"@) {
        Some(JsonTree::Unsigned(number)) => Some(number),
        Some(JsonTree::Text(text)) => block_number_in_text(text),
        _ => None,
    }
}

/// The block number that a body holds.
pub open spec fn body_block_number(body: Seq<u8>) -> Option<u64> {
    match parsed_json(body) {
        Some(tree) => block_number(tree),
        None => None,
    }
}

/// Reads a block number from a text.
pub fn parse_block_number(text: &str) -> (number: Option<u64>)
    ensures
        number == block_number_in_text(text@),
{
    let inner: &str = text.trim();
    let length: usize = inner.unicode_len();
    proof {
        reveal_strlit("0x");
        reveal_strlit("0X");
        if inner@.len() >= 2 {
            assert(inner@.subrange(0, 2) =~= seq![inner@[0], inner@[1]]);
            assert("0x"@ =~= seq!['0', 'x']);
            assert("0X"@ =~= seq!['0', 'X']);
        }
    }
    if length >= 2 && inner.get_char(0) == '0' && (inner.get_char(1) == 'x' || inner.get_char(1)
        == 'X') {
        parse_u64(strip_prefixes(strip_prefixes(inner, "0x"), "0X"), 16)
    } else {
        parse_u64(inner, 10)
    }
}

/// Finds the block number that a response holds as its result.
pub fn find_block_number(value: &Value) -> (number: Option<u64>)
    ensures
        number == block_number(json_tree(*value)),
{
    match json_get(value, "result") {
        Some(result) => match result.as_u64() {
            Some(number) => Some(number),
            None => match result.as_str() {
                Some(text) => parse_block_number(text),
                None => None,
            },
        },
        None => None,
    }
}

/// Reads the block number that a body holds.
pub fn parse_block_number_from_rpc_body(body: &[u8]) -> (number: Option<u64>)
    ensures
        number == body_block_number(body@),
{
    match parse_json(body) {
        Some(value) => find_block_number(&value),
        None => None,
    }
}

/// A provider in shadow mode comes into service only when it has both been
/// observed for long enough and often enough; and then at the first look at it.
pub proof fn promotion_needs_time_and_observations(state: ShadowProviderState, now: Moment)
    requires
        state.enabled,
        !state.promoted,
    ensures
        state.promoted_if_ready(now).promoted <==> state.warmed_up(now) && state.observed_enough(),
{
}

/// A provider in service stays in service.
pub proof fn promotion_is_final(state: ShadowProviderState, now: Moment)
    requires
        state.promoted,
    ensures
        state.promoted_if_ready(now).promoted,
        state.after_observation(now).promoted,
        state.promoted_if_ready(now).shadow_promoted_at_unix_ms
            == state.shadow_promoted_at_unix_ms,
{
}

/// A provider is either in service or has requests mirrored to it, where shadow
/// mode is on.
pub proof fn mirrored_until_live(
    state: PredictiveView,
    index: usize,
    snapshot: ProviderHealthSnapshot,
    weight: u32,
    now: Moment,
)
    requires
        index < state.providers.len(),
        state.shadow_config.enabled,
        state.providers[index as int].shadow.enabled,
    ensures
        state.mirrors(index, now) == !state.scoring(index, snapshot, weight, now).is_live,
{
}

/// No provider lies a negative number of blocks behind: none has a later block
/// than the furthest one.
pub proof fn furthest_is_an_upper_bound(providers: Seq<ProviderPredictiveState>, index: int)
    requires
        0 <= index < providers.len(),
        providers[index].latest_block is Some,
    ensures
        furthest_block(providers) is Some,
        providers[index].latest_block->0 <= furthest_block(providers)->0,
    decreases providers.len(),
{
    if index < providers.len() - 1 {
        assert(providers.drop_last()[index] == providers[index]);
        furthest_is_an_upper_bound(providers.drop_last(), index);
    }
}

/// How far a provider lies behind is told by the blocks alone: some provider is known
/// to be that much further, and none further still. Nothing is known of a provider
/// that has not told its latest block.
pub proof fn lag_is_measured_to_the_furthest(
    state: PredictiveView,
    index: usize,
    snapshot: ProviderHealthSnapshot,
    weight: u32,
    now: Moment,
)
    requires
        index < state.providers.len(),
    ensures
        ({
            let lag = state.scoring(index, snapshot, weight, now).view.block_lag;
            let own = state.providers[index as int].latest_block;
            &&& own is None <==> lag is None
            &&& own is Some ==> {
                &&& forall|k: int|
                    0 <= k < state.providers.len() && (#[trigger] state.providers[k]).latest_block
                        is Some ==> state.providers[k].latest_block->0 <= own->0 + lag->0
                &&& exists|k: int|
                    0 <= k < state.providers.len() && (#[trigger] state.providers[k]).latest_block
                        is Some && state.providers[k].latest_block->0 == own->0 + lag->0
            }
        }),
{
    let own = state.providers[index as int].latest_block;
    if own is Some {
        furthest_is_an_upper_bound(state.providers, index as int);
        assert forall|k: int|
            0 <= k < state.providers.len() && (#[trigger] state.providers[k]).latest_block
                is Some implies state.providers[k].latest_block->0 <= furthest_block(
            state.providers,
        )->0 by {
            furthest_is_an_upper_bound(state.providers, k);
        }
        lemma_furthest_is_known(state.providers);
    }
}

proof fn lemma_furthest_is_known(providers: Seq<ProviderPredictiveState>)
    requires
        furthest_block(providers) is Some,
    ensures
        exists|k: int|
            0 <= k < providers.len() && (#[trigger] providers[k]).latest_block == furthest_block(
                providers,
            ),
    decreases providers.len(),
{
    let before = providers.drop_last();
    let last = providers.len() - 1;
    assert(providers[last].latest_block == providers.last().latest_block);
    if furthest_block(before) is Some {
        lemma_furthest_is_known(before);
        let k = choose|k: int|
            0 <= k < before.len() && (#[trigger] before[k]).latest_block == furthest_block(before);
        assert(providers[k] == before[k]);
    }
}

/// Each block that a provider lies behind counts, up to the most that counts: the
/// lag that counts is the lag itself, and the most that counts where it is larger.
pub proof fn each_block_counts_up_to_the_most(
    state: PredictiveView,
    index: usize,
    snapshot: ProviderHealthSnapshot,
    weight: u32,
    now: Moment,
)
    requires
        index < state.providers.len(),
    ensures
        ({
            let view = state.scoring(index, snapshot, weight, now).view;
            &&& view.block_lag is None <==> view.counted_block_lag is None
            &&& view.block_lag is Some && view.block_lag->0 <= state.max_block_lag
                ==> view.counted_block_lag == view.block_lag
            &&& view.block_lag is Some && view.block_lag->0 > state.max_block_lag
                ==> view.counted_block_lag == Some(state.max_block_lag)
            &&& view.max_block_lag == state.max_block_lag
        }),
{
}

/// Of two providers the one that lies further behind has the larger lag that counts,
/// as long as the other has not reached the most that counts.
pub proof fn lagging_further_counts_more(
    state: PredictiveView,
    index: usize,
    other: usize,
    snapshot: ProviderHealthSnapshot,
    other_snapshot: ProviderHealthSnapshot,
    weight: u32,
    now: Moment,
)
    requires
        index < state.providers.len(),
        other < state.providers.len(),
        state.providers[index as int].latest_block is Some,
        state.providers[other as int].latest_block is Some,
        state.providers[index as int].latest_block->0 > state.providers[other as int].latest_block->0,
    ensures
        ({
            let ahead = state.scoring(index, snapshot, weight, now).view;
            let behind = state.scoring(other, other_snapshot, weight, now).view;
            &&& ahead.counted_block_lag is Some && behind.counted_block_lag is Some
            &&& ahead.counted_block_lag->0 <= behind.counted_block_lag->0
            &&& ahead.block_lag->0 < state.max_block_lag ==> ahead.counted_block_lag->0
                < behind.counted_block_lag->0
        }),
{
    furthest_is_an_upper_bound(state.providers, index as int);
    furthest_is_an_upper_bound(state.providers, other as int);
}

/// What else a score is made of: the provider's own counts and health, its weight
/// between 10 and 1000 percent, what is left of its rate limit, and whether it is in
/// service. Nothing is said of a provider that there is not.
pub proof fn scores_are_made_of_these(
    state: PredictiveView,
    index: usize,
    snapshot: ProviderHealthSnapshot,
    weight: u32,
    now: Moment,
)
    ensures
        ({
            let result = state.scoring(index, snapshot, weight, now);
            let view = result.view;
            &&& result.rated <==> index < state.providers.len()
            &&& !result.rated ==> {
                &&& !result.is_live && !view.enabled && !view.healthy
                &&& view.weight_percent == 0 && view.target_latency_ms == 0
                &&& view.total_success == 0 && view.total_calls == 0
                &&& view.block_lag is None && view.counted_block_lag is None
                &&& view.max_block_lag == 0 && view.rate_limit_headroom is None
                &&& !view.shadow.enabled && !view.shadow.live
                &&& view.shadow.observations == 0 && view.shadow.min_observations == 0
                &&& view.shadow.warmup_remaining_secs is None
                &&& view.shadow.promoted_at_unix_ms is None
            }
            &&& result.rated ==> {
                let provider = state.providers[index as int];
                &&& view.enabled == state.enabled
                &&& view.total_success == snapshot.total_success
                &&& snapshot.total_success + snapshot.total_failures <= u64::MAX
                    ==> view.total_calls == snapshot.total_success + snapshot.total_failures
                &&& view.target_latency_ms == state.target_latency_ms
                &&& view.healthy == snapshot.healthy
                &&& view.rate_limit_headroom == provider.rate_limit_headroom
                &&& 10 <= weight <= 1000 ==> view.weight_percent == weight
                &&& weight < 10 ==> view.weight_percent == 10
                &&& weight > 1000 ==> view.weight_percent == 1000
                &&& result.is_live == view.shadow.live
                &&& result.is_live == provider.shadow.promoted_if_ready(now).promoted
                &&& view.shadow.enabled == provider.shadow.enabled
                &&& view.shadow.observations == provider.shadow.observations
                &&& view.shadow.min_observations == provider.shadow.min_observations
            }
        }),
{
}

/// A controller starts out as it is configured, with each bound one at least, and
/// knows nothing of any provider.
pub proof fn controllers_start_out_as_configured(
    config: PredictiveScoringConfig,
    shadow: ShadowModeConfig,
    providers: Seq<ProviderConfig>,
    now: Moment,
    index: int,
)
    requires
        0 <= index < providers.len(),
    ensures
        ({
            let state = PredictiveView::fresh(config, shadow, providers, now);
            &&& state.enabled == config.enabled
            &&& config.target_latency_ms >= 1 ==> state.target_latency_ms
                == config.target_latency_ms
            &&& config.target_latency_ms == 0 ==> state.target_latency_ms == 1
            &&& config.max_block_lag >= 1 ==> state.max_block_lag == config.max_block_lag
            &&& config.max_block_lag == 0 ==> state.max_block_lag == 1
            &&& config.block_lag_poll_interval_secs >= 1 ==> state.poll_interval_secs
                == config.block_lag_poll_interval_secs
            &&& config.block_lag_poll_interval_secs == 0 ==> state.poll_interval_secs == 1
            &&& state.shadow_config == shadow
            &&& state.providers.len() == providers.len()
            &&& state.providers[index].latest_block is None
            &&& state.providers[index].rate_limit_headroom is None
        }),
{
}

/// A provider is out of service at first exactly if shadow mode is on and it is
/// marked for it; then it is to be observed from now on, as long and as often as it
/// is configured, or else as is the default, and at least once and for a second.
pub proof fn marked_providers_start_in_the_shadow(
    provider: ProviderConfig,
    config: ShadowModeConfig,
    now: Moment,
)
    ensures
        ({
            let state = ShadowProviderState::initial(provider, config, now);
            let marked = config.enabled && provider.shadow_mode;
            &&& state.enabled == marked && state.promoted == !marked
            &&& state.observations == 0
            &&& marked ==> state.shadow_since_ns == Some(now.monotonic_ns)
                && state.shadow_promoted_at_unix_ms is None
            &&& !marked ==> state.shadow_promoted_at_unix_ms == Some(now.unix_ms)
                && state.shadow_since_ns is None && state.warmup_secs == 0
                && state.min_observations == 0
            &&& marked && provider.shadow_warmup_secs is Some && provider.shadow_warmup_secs->0 >= 1
                ==> state.warmup_secs == provider.shadow_warmup_secs->0
            &&& marked && provider.shadow_warmup_secs is None && config.default_warmup_secs >= 1
                ==> state.warmup_secs == config.default_warmup_secs
            &&& marked && provider.shadow_min_observations is Some
                && provider.shadow_min_observations->0 >= 1 ==> state.min_observations
                == provider.shadow_min_observations->0
            &&& marked && provider.shadow_min_observations is None
                && config.default_min_observations >= 1 ==> state.min_observations
                == config.default_min_observations
            &&& marked ==> state.warmup_secs >= 1 && state.min_observations >= 1
        }),
{
}

/// A provider in the shadow is promoted exactly when it has been there for its
/// warm-up and has been observed as often as it must be, and the time is kept.
pub proof fn promotion_takes_warmup_and_observations(
    state: ShadowProviderState,
    since: u128,
    now: Moment,
)
    requires
        state.enabled,
        !state.promoted,
        state.shadow_since_ns == Some(since),
        since <= now.monotonic_ns,
    ensures
        state.promoted_if_ready(now).promoted <==> now.monotonic_ns - since >= state.warmup_secs
            * 1_000_000_000 && state.observations >= state.min_observations,
        state.promoted_if_ready(now).promoted ==> state.promoted_if_ready(
            now,
        ).shadow_promoted_at_unix_ms == Some(now.unix_ms),
        !state.promoted_if_ready(now).promoted ==> state.promoted_if_ready(now) == state,
        state.promoted_if_ready(now).observations == state.observations,
        state.promoted_if_ready(now).enabled,
{
}

/// An observation of a provider in shadow mode counts once, and may promote it; one
/// of another provider does not count.
pub proof fn observations_count_once(state: ShadowProviderState, now: Moment)
    ensures
        !state.enabled ==> state.after_observation(now) == state,
        state.enabled && state.observations < u64::MAX ==> state.after_observation(now).observations
            == state.observations + 1,
        state.enabled && !state.promoted && state.observations < u64::MAX && state.warmed_up(now)
            ==> (state.after_observation(now).promoted <==> state.observations + 1
            >= state.min_observations),
        state.enabled && !state.promoted && !state.warmed_up(now) ==> !state.after_observation(
            now,
        ).promoted,
        state.after_observation(now).warmup_secs == state.warmup_secs,
        state.after_observation(now).shadow_since_ns == state.shadow_since_ns,
{
}

/// What is reported of a provider in the shadow: how often it was observed, and the
/// whole seconds of its warm-up that are to come, which nothing is said of once it
/// is in service.
pub proof fn the_rest_of_the_warmup_is_reported(
    state: ShadowProviderState,
    since: u128,
    now: Moment,
)
    requires
        state.shadow_since_ns == Some(since),
        since <= now.monotonic_ns,
    ensures
        ({
            let status = state.status(now);
            let left = state.warmup_secs * 1_000_000_000 - (now.monotonic_ns - since);
            &&& status.enabled == state.enabled && status.live == state.promoted
            &&& status.observations == state.observations
            &&& status.min_observations == state.min_observations
            &&& status.promoted_at_unix_ms == state.shadow_promoted_at_unix_ms
            &&& state.promoted || !state.enabled ==> status.warmup_remaining_secs is None
            &&& state.enabled && !state.promoted ==> {
                &&& status.warmup_remaining_secs is Some
                &&& left <= 0 ==> status.warmup_remaining_secs->0 == 0
                &&& left > 0 ==> status.warmup_remaining_secs->0 * 1_000_000_000 <= left && left < (
                status.warmup_remaining_secs->0 + 1) * 1_000_000_000
            }
        }),
{
}

/// What is learnt of a provider is kept of it alone, and changes nothing else that is
/// known of it.
pub proof fn facts_are_kept_of_their_provider(
    state: PredictiveView,
    index: usize,
    other: int,
    headroom: RateLimitHeadroom,
    block: u64,
    now: Moment,
)
    requires
        index < state.providers.len(),
        0 <= other < state.providers.len(),
    ensures
        ({
            let i = index as int;
            let limited = state.after_headroom(index, headroom);
            let told = state.after_block(index, block);
            let observed = state.after_observation(index, now);
            &&& limited.providers[i].rate_limit_headroom == Some(headroom)
            &&& limited.providers[i].latest_block == state.providers[i].latest_block
            &&& limited.providers[i].shadow == state.providers[i].shadow
            &&& told.providers[i].latest_block == Some(block)
            &&& told.providers[i].rate_limit_headroom == state.providers[i].rate_limit_headroom
            &&& told.providers[i].shadow == state.providers[i].shadow
            &&& observed.providers[i].latest_block == state.providers[i].latest_block
            &&& observed.providers[i].rate_limit_headroom
                == state.providers[i].rate_limit_headroom
            &&& observed.providers[i].shadow == state.providers[i].shadow.after_observation(now)
            &&& other != index ==> {
                &&& limited.providers[other] == state.providers[other]
                &&& told.providers[other] == state.providers[other]
                &&& observed.providers[other] == state.providers[other]
            }
        }),
{
}

/// A block number is the result of a response: a number as it is, or a text in
/// decimal with white space around it at most. Nothing else is one.
pub proof fn results_are_block_numbers(body: Seq<u8>, tree: JsonTree)
    requires
        parsed_json(body) == Some(tree),
    ensures
        member(tree, "result"@) matches Some(JsonTree::Unsigned(number)) ==> body_block_number(body)
            == Some(number),
        member(tree, "result"@) matches Some(JsonTree::Text(text)) ==> {
            let inner = trimmed(text);
            inner.len() < 2 || inner[0] != '0' || (inner[1] != 'x' && inner[1] != 'X')
                ==> body_block_number(body) == parsed_u64(inner, 10)
        },
        (member(tree, "result"@) is None || (member(tree, "result"@)->0 !is Unsigned && member(
            tree,
            "result"@,
        )->0 !is Text)) ==> body_block_number(body) is None,
{
    reveal_strlit("0x");
    reveal_strlit("0X");
    if let Some(JsonTree::Text(text)) = member(tree, "result"@) {
        let inner = trimmed(text);
        if "0x"@.is_prefix_of(inner) || "0X"@.is_prefix_of(inner) {
            assert(inner.take(2)[0] == inner[0]);
            assert(inner.take(2)[1] == inner[1]);
        }
    }
}

/// Digits behind `0x` or `0X` are read in hexadecimal.
pub proof fn prefixed_block_numbers_are_hexadecimal(
    body: Seq<u8>,
    tree: JsonTree,
    text: Seq<char>,
    digits: Seq<char>,
)
    requires
        parsed_json(body) == Some(tree),
        member(tree, "result"@) == Some(JsonTree::Text(text)),
        trimmed(text) == seq!['0', 'x'] + digits || trimmed(text) == seq!['0', 'X'] + digits,
        digits.len() < 2 || digits[0] != '0' || (digits[1] != 'x' && digits[1] != 'X'),
    ensures
        body_block_number(body) == parsed_u64(digits, 16),
{
    reveal_strlit("0x");
    reveal_strlit("0X");
    let inner = trimmed(text);
    let lower = "0x"@;
    let upper = "0X"@;
    assert(lower =~= seq!['0', 'x']);
    assert(upper =~= seq!['0', 'X']);
    reveal_with_fuel(without_prefixes, 3);
    assert(inner.skip(2) =~= digits);
    assert(inner[0] == '0');
    if lower.is_prefix_of(digits) || upper.is_prefix_of(digits) {
        assert(digits.take(2)[0] == digits[0]);
        assert(digits.take(2)[1] == digits[1]);
    }
    if inner[1] == 'x' {
        assert(lower.is_prefix_of(inner)) by {
            assert(inner.take(2) =~= lower);
        }
        assert(without_prefixes(inner, lower) == digits);
    } else {
        assert(!lower.is_prefix_of(inner)) by {
            if lower.is_prefix_of(inner) {
                assert(inner.take(2)[1] == inner[1]);
            }
        }
        assert(upper.is_prefix_of(inner)) by {
            assert(inner.take(2) =~= upper);
        }
        assert(without_prefixes(inner, lower) == inner);
        assert(without_prefixes(inner, upper) == digits);
    }
}

/// Deciding whether requests are mirrored to a provider promotes it where it is
/// ready, and changes nothing else; nothing changes where shadow mode is off.
pub proof fn deciding_on_mirroring_promotes(
    before: PredictiveView,
    index: usize,
    now: Moment,
    after: PredictiveView,
    mirror: bool,
)
    requires
        mirror_decision(before, index, now, after, mirror),
        index < before.providers.len(),
    ensures
        ({
            let provider = before.providers[index as int];
            &&& mirror <==> before.shadow_config.enabled && provider.shadow.enabled
                && !provider.shadow.promoted_if_ready(now).promoted
            &&& !before.shadow_config.enabled ==> after == before
            &&& before.shadow_config.enabled ==> after == (PredictiveView {
                providers: before.providers.update(
                    index as int,
                    ProviderPredictiveState {
                        latest_block: provider.latest_block,
                        rate_limit_headroom: provider.rate_limit_headroom,
                        shadow: provider.shadow.promoted_if_ready(now),
                    },
                ),
                ..before
            })
        }),
{
}

/// Nothing is kept of a provider that there is not.
pub proof fn nothing_is_kept_of_other_providers(
    state: PredictiveView,
    index: usize,
    headroom: RateLimitHeadroom,
    block: u64,
    now: Moment,
)
    requires
        index >= state.providers.len(),
    ensures
        state.after_headroom(index, headroom) == state,
        state.after_block(index, block) == state,
        state.after_observation(index, now) == state,
        state.promoting(index, now) == state,
{
}

} // verus!
