//! The gateway's configuration: its parts, their defaults and their bounds.
use std::collections::HashMap;
use std::time::Duration;

use serde_json::Value;

use vstd::prelude::*;

use crate::json::{json_array, json_tree, JsonTree};
use crate::text::{lowercase, trimmed};
use crate::time::{duration_nanos, NANOS_PER_MILLI, NANOS_PER_SEC};

verus! {

/// The larger of two numbers.
pub open spec fn at_least(value: int, floor: int) -> int {
    if value < floor {
        floor
    } else {
        value
    }
}

/// The whole configuration.
pub struct Settings {
    pub server: ServerConfig,
    pub reliability: ReliabilityConfig,
    pub cache: CacheConfig,
    pub method_policy: MethodPolicyConfig,
    pub providers: Vec<ProviderConfig>,
}

/// Why a configuration cannot be used.
#[derive(Debug, Clone, Copy, PartialEq, Eq, Structural)]
pub enum SettingsError {
    /// It names no provider.
    NoProviders,
}

impl SettingsError {
    /// The error in words.
    pub fn message(&self) -> (text: String)
        ensures
            text@ == "at least one provider must be configured"@,
    {
        match self {
            SettingsError::NoProviders => "at least one provider must be configured".to_string(),
        }
    }
}

impl Settings {
    /// Accepts a configuration that names at least one provider.
    pub fn validated(self) -> (settings: Result<Settings, SettingsError>)
        ensures
            (match settings {
                Ok(s) => self.providers@.len() > 0 && s == self,
                Err(error) => self.providers@.len() == 0 && error == SettingsError::NoProviders,
            }),
    {
        if self.providers.len() == 0 {
            Err(SettingsError::NoProviders)
        } else {
            Ok(self)
        }
    }

    /// Where the configuration lies: the path that the environment names, if it
    /// names one.
    pub fn config_path(from_environment: Option<String>) -> (path: String)
        ensures
            path@ == (match from_environment {
                Some(named) => named@,
                None => "config/gateway.toml"@,
            }),
    {
        match from_environment {
            Some(named) => named,
            None => "config/gateway.toml".to_string(),
        }
    }
}

/// Where the gateway listens.
#[derive(Debug)]
pub struct ServerConfig {
    pub bind_addr: String,
}

impl Default for ServerConfig {
    fn default() -> (config: Self)
        ensures
            config.bind_addr@ == "0.0.0.0:8080"@,
    {
        ServerConfig { bind_addr: default_bind_addr() }
    }
}

pub fn default_bind_addr() -> (addr: String)
    ensures
        addr@ == "0.0.0.0:8080"@,
{
    "0.0.0.0:8080".to_string()
}

/// How requests are dispatched and providers judged.
pub struct ReliabilityConfig {
    pub request_timeout_ms: u64,
    pub hedge_delay_ms: u64,
    pub max_failover_attempts: usize,
    pub unhealthy_after_failures: u32,
    pub recovery_after_secs: u64,
    pub probe: ProbeConfig,
    pub adaptive_hedging: AdaptiveHedgingConfig,
    pub predictive_scoring: PredictiveScoringConfig,
    pub shadow_mode: ShadowModeConfig,
    pub coalescing: CoalescingConfig,
    pub consensus_validation: ConsensusValidationConfig,
    pub cost_routing: CostRoutingConfig,
}

impl Default for ReliabilityConfig {
    fn default() -> (config: Self)
        ensures
            config.request_timeout_ms == 2_000,
            config.hedge_delay_ms == 150,
            config.max_failover_attempts == 3,
            config.unhealthy_after_failures == 3,
            config.recovery_after_secs == 15,
            config.probe.is_default(),
            config.adaptive_hedging.is_default(),
            config.predictive_scoring.is_default(),
            config.shadow_mode.is_default(),
            config.coalescing.enabled,
            config.consensus_validation.is_default(),
            config.cost_routing.is_default(),
    {
        ReliabilityConfig {
            request_timeout_ms: default_request_timeout_ms(),
            hedge_delay_ms: default_hedge_delay_ms(),
            max_failover_attempts: default_max_failover_attempts(),
            unhealthy_after_failures: default_unhealthy_after_failures(),
            recovery_after_secs: default_recovery_after_secs(),
            probe: ProbeConfig::default(),
            adaptive_hedging: AdaptiveHedgingConfig::default(),
            predictive_scoring: PredictiveScoringConfig::default(),
            shadow_mode: ShadowModeConfig::default(),
            coalescing: CoalescingConfig::default(),
            consensus_validation: ConsensusValidationConfig::default(),
            cost_routing: CostRoutingConfig::default(),
        }
    }
}

impl ReliabilityConfig {
    /// How many providers a request may be tried on, at least one.
    pub open spec fn attempts_limit(&self) -> nat {
        at_least(self.max_failover_attempts as int, 1) as nat
    }

    pub fn request_timeout(&self) -> (timeout: Duration)
        ensures
            duration_nanos(timeout) == self.request_timeout_ms * NANOS_PER_MILLI,
    {
        Duration::from_millis(self.request_timeout_ms)
    }

    pub fn hedge_delay(&self) -> (delay: Duration)
        ensures
            duration_nanos(delay) == self.hedge_delay_ms * NANOS_PER_MILLI,
    {
        Duration::from_millis(self.hedge_delay_ms)
    }

    pub fn recovery_after(&self) -> (recovery: Duration)
        ensures
            duration_nanos(recovery) == self.recovery_after_secs * NANOS_PER_SEC,
    {
        Duration::from_secs(self.recovery_after_secs)
    }

    pub fn normalized_max_failover_attempts(&self) -> (attempts: usize)
        ensures
            attempts == self.attempts_limit(),
    {
        self.max_failover_attempts.max(1)
    }
}

pub fn default_request_timeout_ms() -> (millis: u64)
    ensures
        millis == 2_000,
{
    2_000
}

pub fn default_hedge_delay_ms() -> (millis: u64)
    ensures
        millis == 150,
{
    150
}

pub fn default_max_failover_attempts() -> (attempts: usize)
    ensures
        attempts == 3,
{
    3
}

pub fn default_unhealthy_after_failures() -> (failures: u32)
    ensures
        failures == 3,
{
    3
}

pub fn default_recovery_after_secs() -> (secs: u64)
    ensures
        secs == 15,
{
    15
}

/// Whether identical concurrent requests share one upstream call.
#[derive(Debug, Clone, Copy)]
pub struct CoalescingConfig {
    pub enabled: bool,
}

impl Default for CoalescingConfig {
    fn default() -> (config: Self)
        ensures
            config.enabled,
    {
        CoalescingConfig { enabled: default_coalescing_enabled() }
    }
}

pub fn default_coalescing_enabled() -> (enabled: bool)
    ensures
        enabled,
{
    true
}

/// How answers to consensus-critical requests are compared across providers.
#[derive(Debug, Clone, Copy)]
pub struct ConsensusValidationConfig {
    pub enabled: bool,
    pub sample_size: usize,
    pub fail_open: bool,
}

impl Default for ConsensusValidationConfig {
    fn default() -> (config: Self)
        ensures
            config.is_default(),
    {
        ConsensusValidationConfig {
            enabled: default_consensus_validation_enabled(),
            sample_size: default_consensus_validation_sample_size(),
            fail_open: default_consensus_validation_fail_open(),
        }
    }
}

impl ConsensusValidationConfig {
    pub open spec fn is_default(&self) -> bool {
        !self.enabled && self.sample_size == 3 && !self.fail_open
    }

    /// How many providers are asked: two or three.
    pub open spec fn sample_limit(&self) -> nat {
        if self.sample_size < 2 {
            2
        } else if self.sample_size > 3 {
            3
        } else {
            self.sample_size as nat
        }
    }

    pub fn normalized_sample_size(&self) -> (size: usize)
        ensures
            size == self.sample_limit(),
    {
        self.sample_size.max(2).min(3)
    }
}

pub fn default_consensus_validation_enabled() -> (enabled: bool)
    ensures
        !enabled,
{
    false
}

pub fn default_consensus_validation_sample_size() -> (size: usize)
    ensures
        size == 3,
{
    3
}

pub fn default_consensus_validation_fail_open() -> (fail_open: bool)
    ensures
        !fail_open,
{
    false
}

/// How prices weigh in the ranking of providers.
#[derive(Debug)]
pub struct CostRoutingConfig {
    pub enabled: bool,
    pub strategy: String,
}

impl Default for CostRoutingConfig {
    fn default() -> (config: Self)
        ensures
            config.is_default(),
    {
        CostRoutingConfig {
            enabled: default_cost_routing_enabled(),
            strategy: default_cost_routing_strategy(),
        }
    }
}

impl CostRoutingConfig {
    pub open spec fn is_default(&self) -> bool {
        !self.enabled && self.strategy@ == "balanced"@
    }

    /// The strategy's name without surrounding white space, in lower case, and
    /// `balanced` where nothing is left.
    pub open spec fn strategy_name(&self) -> Seq<char> {
        let name = lowercase(trimmed(self.strategy@));
        if name.len() == 0 {
            "balanced"@
        } else {
            name
        }
    }

    pub fn normalized_strategy(&self) -> (strategy: String)
        ensures
            strategy@ == self.strategy_name(),
    {
        let strategy: String = self.strategy.as_str().trim().to_ascii_lowercase();
        if strategy.as_str().is_empty() {
            return default_cost_routing_strategy();
        }
        strategy
    }
}

pub fn default_cost_routing_enabled() -> (enabled: bool)
    ensures
        !enabled,
{
    false
}

pub fn default_cost_routing_strategy() -> (strategy: String)
    ensures
        strategy@ == "balanced"@,
{
    "balanced".to_string()
}

/// How providers are scored, and how their block lag is polled.
pub struct PredictiveScoringConfig {
    pub enabled: bool,
    pub target_latency_ms: u64,
    pub max_block_lag: u64,
    pub block_lag_poll_interval_secs: u64,
    pub block_lag_method: String,
    pub block_lag_params: Value,
}

impl Default for PredictiveScoringConfig {
    fn default() -> (config: Self)
        ensures
            config.is_default(),
    {
        PredictiveScoringConfig {
            enabled: default_predictive_scoring_enabled(),
            target_latency_ms: default_predictive_target_latency_ms(),
            max_block_lag: default_predictive_max_block_lag(),
            block_lag_poll_interval_secs: default_predictive_block_lag_interval_secs(),
            block_lag_method: default_predictive_block_lag_method(),
            block_lag_params: default_predictive_block_lag_params(),
        }
    }
}

impl PredictiveScoringConfig {
    pub open spec fn is_default(&self) -> bool {
        &&& self.enabled
        &&& self.target_latency_ms == 120
        &&& self.max_block_lag == 8
        &&& self.block_lag_poll_interval_secs == 6
        &&& self.block_lag_method@ == "getSlot"@
        &&& json_tree(self.block_lag_params) == JsonTree::Array(Seq::empty())
    }

    pub fn normalized_target_latency_ms(&self) -> (millis: u64)
        ensures
            millis == at_least(self.target_latency_ms as int, 1),
    {
        self.target_latency_ms.max(1)
    }

    pub fn normalized_max_block_lag(&self) -> (lag: u64)
        ensures
            lag == at_least(self.max_block_lag as int, 1),
    {
        self.max_block_lag.max(1)
    }

    pub fn block_lag_poll_interval(&self) -> (interval: Duration)
        ensures
            duration_nanos(interval) == at_least(self.block_lag_poll_interval_secs as int, 1)
                * NANOS_PER_SEC,
    {
        Duration::from_secs(self.block_lag_poll_interval_secs.max(1))
    }
}

pub fn default_predictive_scoring_enabled() -> (enabled: bool)
    ensures
        enabled,
{
    true
}

pub fn default_predictive_target_latency_ms() -> (millis: u64)
    ensures
        millis == 120,
{
    120
}

pub fn default_predictive_max_block_lag() -> (lag: u64)
    ensures
        lag == 8,
{
    8
}

pub fn default_predictive_block_lag_interval_secs() -> (secs: u64)
    ensures
        secs == 6,
{
    6
}

pub fn default_predictive_block_lag_method() -> (method: String)
    ensures
        method@ == "getSlot"@,
{
    "getSlot".to_string()
}

pub fn default_predictive_block_lag_params() -> (params: Value)
    ensures
        json_tree(params) == JsonTree::Array(Seq::empty()),
{
    let params: Value = json_array(Vec::new());
    assert(json_tree(params)->Array_0 =~= Seq::empty());
    params
}

/// How new providers are observed before they serve requests.
#[derive(Debug, Clone, Copy)]
pub struct ShadowModeConfig {
    pub enabled: bool,
    pub default_warmup_secs: u64,
    pub default_min_observations: u64,
    pub mirror_max_providers: usize,
}

impl Default for ShadowModeConfig {
    fn default() -> (config: Self)
        ensures
            config.is_default(),
    {
        ShadowModeConfig {
            enabled: default_shadow_mode_enabled(),
            default_warmup_secs: default_shadow_default_warmup_secs(),
            default_min_observations: default_shadow_default_min_observations(),
            mirror_max_providers: default_shadow_mirror_max_providers(),
        }
    }
}

impl ShadowModeConfig {
    pub open spec fn is_default(&self) -> bool {
        &&& self.enabled
        &&& self.default_warmup_secs == 300
        &&& self.default_min_observations == 50
        &&& self.mirror_max_providers == 1
    }

    /// How many providers a request may be mirrored to, at least one.
    pub open spec fn mirror_limit(&self) -> nat {
        at_least(self.mirror_max_providers as int, 1) as nat
    }

    pub fn normalized_default_warmup_secs(&self) -> (secs: u64)
        ensures
            secs == at_least(self.default_warmup_secs as int, 1),
    {
        self.default_warmup_secs.max(1)
    }

    pub fn normalized_default_min_observations(&self) -> (observations: u64)
        ensures
            observations == at_least(self.default_min_observations as int, 1),
    {
        self.default_min_observations.max(1)
    }

    pub fn normalized_mirror_max_providers(&self) -> (providers: usize)
        ensures
            providers == self.mirror_limit(),
    {
        self.mirror_max_providers.max(1)
    }
}

pub fn default_shadow_mode_enabled() -> (enabled: bool)
    ensures
        enabled,
{
    true
}

pub fn default_shadow_default_warmup_secs() -> (secs: u64)
    ensures
        secs == 300,
{
    300
}

pub fn default_shadow_default_min_observations() -> (observations: u64)
    ensures
        observations == 50,
{
    50
}

pub fn default_shadow_mirror_max_providers() -> (providers: usize)
    ensures
        providers == 1,
{
    1
}

/// How many providers a request is raced on. The load thresholds are the fewest
/// requests within the window at which the load counts as medium or high.
#[derive(Debug, Clone, Copy)]
pub struct AdaptiveHedgingConfig {
    pub enabled: bool,
    pub min_hedge_width: usize,
    pub max_hedge_width: usize,
    pub rps_window_secs: u64,
    pub medium_load_requests: usize,
    pub high_load_requests: usize,
    pub medium_latency_spread_ms: u64,
    pub high_latency_spread_ms: u64,
    pub max_latency_samples: usize,
}

impl Default for AdaptiveHedgingConfig {
    fn default() -> (config: Self)
        ensures
            config.is_default(),
    {
        AdaptiveHedgingConfig {
            enabled: default_adaptive_hedging_enabled(),
            min_hedge_width: default_adaptive_min_hedge_width(),
            max_hedge_width: default_adaptive_max_hedge_width(),
            rps_window_secs: default_adaptive_rps_window_secs(),
            medium_load_requests: default_adaptive_medium_load_requests(),
            high_load_requests: default_adaptive_high_load_requests(),
            medium_latency_spread_ms: default_adaptive_medium_latency_spread_ms(),
            high_latency_spread_ms: default_adaptive_high_latency_spread_ms(),
            max_latency_samples: default_adaptive_max_latency_samples(),
        }
    }
}

impl AdaptiveHedgingConfig {
    pub open spec fn is_default(&self) -> bool {
        &&& self.enabled
        &&& self.min_hedge_width == 1
        &&& self.max_hedge_width == 4
        &&& self.rps_window_secs == 30
        &&& self.medium_load_requests == 1_200
        &&& self.high_load_requests == 3_600
        &&& self.medium_latency_spread_ms == 75
        &&& self.high_latency_spread_ms == 175
        &&& self.max_latency_samples == 180
    }

    /// The smallest width, at least one.
    pub open spec fn min_width(&self) -> nat {
        at_least(self.min_hedge_width as int, 1) as nat
    }

    /// The largest width, at least the smallest.
    pub open spec fn max_width(&self) -> nat {
        at_least(self.max_hedge_width as int, self.min_width() as int) as nat
    }

    /// The length of the window, at least one second.
    pub open spec fn window_secs(&self) -> nat {
        at_least(self.rps_window_secs as int, 1) as nat
    }

    /// How many latencies are kept of each provider, at least five.
    pub open spec fn sample_limit(&self) -> nat {
        at_least(self.max_latency_samples as int, 5) as nat
    }

    pub fn normalized_min_hedge_width(&self) -> (width: usize)
        ensures
            width == self.min_width(),
    {
        self.min_hedge_width.max(1)
    }

    pub fn normalized_max_hedge_width(&self) -> (width: usize)
        ensures
            width == self.max_width(),
    {
        self.max_hedge_width.max(self.normalized_min_hedge_width())
    }

    pub fn normalized_rps_window_secs(&self) -> (secs: u64)
        ensures
            secs == self.window_secs(),
    {
        self.rps_window_secs.max(1)
    }

    pub fn normalized_max_latency_samples(&self) -> (samples: usize)
        ensures
            samples == self.sample_limit(),
    {
        self.max_latency_samples.max(5)
    }
}

pub fn default_adaptive_hedging_enabled() -> (enabled: bool)
    ensures
        enabled,
{
    true
}

pub fn default_adaptive_min_hedge_width() -> (width: usize)
    ensures
        width == 1,
{
    1
}

pub fn default_adaptive_max_hedge_width() -> (width: usize)
    ensures
        width == 4,
{
    4
}

pub fn default_adaptive_rps_window_secs() -> (secs: u64)
    ensures
        secs == 30,
{
    30
}

/// Forty requests a second over the default window.
pub fn default_adaptive_medium_load_requests() -> (requests: usize)
    ensures
        requests == 40 * 30,
{
    1_200
}

/// A hundred and twenty requests a second over the default window.
pub fn default_adaptive_high_load_requests() -> (requests: usize)
    ensures
        requests == 120 * 30,
{
    3_600
}

pub fn default_adaptive_medium_latency_spread_ms() -> (millis: u64)
    ensures
        millis == 75,
{
    75
}

pub fn default_adaptive_high_latency_spread_ms() -> (millis: u64)
    ensures
        millis == 175,
{
    175
}

pub fn default_adaptive_max_latency_samples() -> (samples: usize)
    ensures
        samples == 180,
{
    180
}

/// How providers are probed in the background.
pub struct ProbeConfig {
    pub enabled: bool,
    pub interval_secs: u64,
    pub timeout_ms: u64,
    pub method: String,
    pub params: Value,
}

impl Default for ProbeConfig {
    fn default() -> (config: Self)
        ensures
            config.is_default(),
    {
        ProbeConfig {
            enabled: default_probe_enabled(),
            interval_secs: default_probe_interval_secs(),
            timeout_ms: default_probe_timeout_ms(),
            method: default_probe_method(),
            params: default_probe_params(),
        }
    }
}

impl ProbeConfig {
    pub open spec fn is_default(&self) -> bool {
        &&& self.enabled
        &&& self.interval_secs == 10
        &&& self.timeout_ms == 1_200
        &&& self.method@ == "getHealth"@
        &&& json_tree(self.params) == JsonTree::Array(Seq::empty())
    }

    pub fn interval(&self) -> (interval: Duration)
        ensures
            duration_nanos(interval) == at_least(self.interval_secs as int, 1) * NANOS_PER_SEC,
    {
        Duration::from_secs(self.interval_secs.max(1))
    }

    pub fn timeout(&self) -> (timeout: Duration)
        ensures
            duration_nanos(timeout) == at_least(self.timeout_ms as int, 1) * NANOS_PER_MILLI,
    {
        Duration::from_millis(self.timeout_ms.max(1))
    }
}

pub fn default_probe_enabled() -> (enabled: bool)
    ensures
        enabled,
{
    true
}

pub fn default_probe_interval_secs() -> (secs: u64)
    ensures
        secs == 10,
{
    10
}

pub fn default_probe_timeout_ms() -> (millis: u64)
    ensures
        millis == 1_200,
{
    1_200
}

pub fn default_probe_method() -> (method: String)
    ensures
        method@ == "getHealth"@,
{
    "getHealth".to_string()
}

pub fn default_probe_params() -> (params: Value)
    ensures
        json_tree(params) == JsonTree::Array(Seq::empty()),
{
    let params: Value = json_array(Vec::new());
    assert(json_tree(params)->Array_0 =~= Seq::empty());
    params
}

/// Which responses are cached, for how long, and how many.
#[derive(Debug)]
pub struct CacheConfig {
    pub enabled: bool,
    pub ttl_secs: u64,
    pub max_capacity: u64,
    pub cacheable_methods: Vec<String>,
    /// Lifetimes of single methods; of two entries for one method the later
    /// counts.
    pub method_ttl_secs: Vec<(String, u64)>,
}

impl Default for CacheConfig {
    fn default() -> (config: Self)
        ensures
            config.enabled,
            config.ttl_secs == 2,
            config.max_capacity == 20_000,
            config.cacheable_methods@.len() == 0,
            config.method_ttl_secs@.len() == 0,
    {
        CacheConfig {
            enabled: default_cache_enabled(),
            ttl_secs: default_cache_ttl_secs(),
            max_capacity: default_cache_capacity(),
            cacheable_methods: Vec::new(),
            method_ttl_secs: Vec::new(),
        }
    }
}

pub fn default_cache_enabled() -> (enabled: bool)
    ensures
        enabled,
{
    true
}

pub fn default_cache_ttl_secs() -> (secs: u64)
    ensures
        secs == 2,
{
    2
}

pub fn default_cache_capacity() -> (entries: u64)
    ensures
        entries == 20_000,
{
    20_000
}

/// What is known of methods beyond the built-in table.
#[derive(Debug)]
pub struct MethodPolicyConfig {
    /// Overrides of single methods; of two entries for one method the later
    /// counts.
    pub overrides: Vec<(String, MethodPolicyOverride)>,
}

impl Default for MethodPolicyConfig {
    fn default() -> (config: Self)
        ensures
            config.overrides@.len() == 0,
    {
        MethodPolicyConfig { overrides: Vec::new() }
    }
}

/// What replaces the built-in classification of a method.
#[derive(Debug, Clone, Copy)]
pub struct MethodPolicyOverride {
    pub cacheable_by_default: Option<bool>,
    pub consensus_critical: Option<bool>,
}

impl Default for MethodPolicyOverride {
    fn default() -> (policy: Self)
        ensures
            policy.cacheable_by_default is None,
            policy.consensus_critical is None,
    {
        MethodPolicyOverride { cacheable_by_default: None, consensus_critical: None }
    }
}

/// An upstream provider.
#[derive(Debug)]
pub struct ProviderConfig {
    pub name: String,
    pub url: String,
    pub weight: u32,
    pub timeout_ms: Option<u64>,
    pub headers: HashMap<String, String>,
    pub shadow_mode: bool,
    pub shadow_warmup_secs: Option<u64>,
    pub shadow_min_observations: Option<u64>,
    /// The provider's price per request, as a number that orders prices; nothing
    /// where no positive price is known.
    pub cost_rank: Option<u64>,
}

impl ProviderConfig {
    /// The warm-up in seconds, at least one.
    pub open spec fn warmup_secs(&self, fallback_secs: u64) -> nat {
        at_least(
            match self.shadow_warmup_secs {
                Some(secs) => secs as int,
                None => fallback_secs as int,
            },
            1,
        ) as nat
    }

    /// The observations that end the warm-up, at least one.
    pub open spec fn observations_needed(&self, fallback: u64) -> nat {
        at_least(
            match self.shadow_min_observations {
                Some(observations) => observations as int,
                None => fallback as int,
            },
            1,
        ) as nat
    }

    pub fn timeout_or_default(&self, fallback: Duration) -> (timeout: Duration)
        ensures
            (match self.timeout_ms {
                Some(millis) => duration_nanos(timeout) == millis * NANOS_PER_MILLI,
                None => timeout == fallback,
            }),
    {
        match self.timeout_ms {
            Some(millis) => Duration::from_millis(millis),
            None => fallback,
        }
    }

    pub fn shadow_warmup_or_default(&self, fallback_secs: u64) -> (secs: u64)
        ensures
            secs == self.warmup_secs(fallback_secs),
    {
        self.shadow_warmup_secs.unwrap_or(fallback_secs).max(1)
    }

    pub fn shadow_min_observations_or_default(&self, fallback: u64) -> (observations: u64)
        ensures
            observations == self.observations_needed(fallback),
    {
        self.shadow_min_observations.unwrap_or(fallback).max(1)
    }
}

pub fn default_provider_weight() -> (weight: u32)
    ensures
        weight == 100,
{
    100
}

/// Whatever is configured, a request is tried on one provider at least, two or
/// three are asked to agree, and it is mirrored to one at least; within these
/// bounds the configuration counts as it is.
pub proof fn counts_of_providers_are_bounded(
    reliability: ReliabilityConfig,
    consensus: ConsensusValidationConfig,
    shadow: ShadowModeConfig,
)
    ensures
        reliability.max_failover_attempts >= 1 ==> reliability.attempts_limit()
            == reliability.max_failover_attempts,
        reliability.max_failover_attempts == 0 ==> reliability.attempts_limit() == 1,
        2 <= consensus.sample_limit() <= 3,
        2 <= consensus.sample_size <= 3 ==> consensus.sample_limit() == consensus.sample_size,
        consensus.sample_size > 3 ==> consensus.sample_limit() == 3,
        consensus.sample_size < 2 ==> consensus.sample_limit() == 2,
        shadow.mirror_max_providers >= 1 ==> shadow.mirror_limit() == shadow.mirror_max_providers,
        shadow.mirror_max_providers == 0 ==> shadow.mirror_limit() == 1,
{
}

/// The configured widths of a race count as they are, but none is below one and the
/// largest is not below the smallest; the window lasts a second at least, and five
/// samples are kept at least.
pub proof fn race_limits_are_bounded(config: AdaptiveHedgingConfig)
    ensures
        config.min_hedge_width >= 1 ==> config.min_width() == config.min_hedge_width,
        config.min_hedge_width == 0 ==> config.min_width() == 1,
        config.max_hedge_width >= config.min_width() ==> config.max_width()
            == config.max_hedge_width,
        config.max_hedge_width < config.min_width() ==> config.max_width() == config.min_width(),
        config.rps_window_secs >= 1 ==> config.window_secs() == config.rps_window_secs,
        config.rps_window_secs == 0 ==> config.window_secs() == 1,
        config.max_latency_samples >= 5 ==> config.sample_limit() == config.max_latency_samples,
        config.max_latency_samples < 5 ==> config.sample_limit() == 5,
{
}

/// A provider's own warm-up and number of observations come before the defaults,
/// and neither is below one.
pub proof fn warmup_is_the_providers_own(provider: ProviderConfig, fallback: u64)
    ensures
        provider.shadow_warmup_secs matches Some(secs) && secs >= 1 ==> provider.warmup_secs(
            fallback,
        ) == provider.shadow_warmup_secs->0,
        provider.shadow_warmup_secs == Some(0u64) ==> provider.warmup_secs(fallback) == 1,
        provider.shadow_warmup_secs is None && fallback >= 1 ==> provider.warmup_secs(fallback)
            == fallback,
        provider.shadow_warmup_secs is None && fallback == 0 ==> provider.warmup_secs(fallback)
            == 1,
        provider.shadow_min_observations matches Some(count) && count >= 1
            ==> provider.observations_needed(fallback) == provider.shadow_min_observations->0,
        provider.shadow_min_observations == Some(0u64) ==> provider.observations_needed(fallback)
            == 1,
        provider.shadow_min_observations is None && fallback >= 1 ==> provider.observations_needed(
            fallback,
        ) == fallback,
        provider.shadow_min_observations is None && fallback == 0 ==> provider.observations_needed(
            fallback,
        ) == 1,
{
}

/// White space around the name of a strategy and its letter case do not count, and
/// no name at all means the balanced one.
pub proof fn strategy_names_are_normalized(config: CostRoutingConfig)
    ensures
        trimmed(config.strategy@).len() == 0 ==> config.strategy_name() == "balanced"@,
        trimmed(config.strategy@).len() > 0 ==> config.strategy_name() == lowercase(
            trimmed(config.strategy@),
        ),
{
}

/// The defaults that the configuration is documented with.
pub proof fn documented_defaults(
    consensus: ConsensusValidationConfig,
    cost: CostRoutingConfig,
    predictive: PredictiveScoringConfig,
    shadow: ShadowModeConfig,
    adaptive: AdaptiveHedgingConfig,
    probe: ProbeConfig,
)
    ensures
        consensus.is_default() <==> !consensus.enabled && consensus.sample_size == 3
            && !consensus.fail_open,
        cost.is_default() <==> !cost.enabled && cost.strategy@ == "balanced"@,
        predictive.is_default() <==> predictive.enabled && predictive.target_latency_ms == 120
            && predictive.max_block_lag == 8 && predictive.block_lag_poll_interval_secs == 6
            && predictive.block_lag_method@ == "getSlot"@ && json_tree(predictive.block_lag_params)
            == JsonTree::Array(Seq::empty()),
        shadow.is_default() <==> shadow.enabled && shadow.default_warmup_secs == 300
            && shadow.default_min_observations == 50 && shadow.mirror_max_providers == 1,
        adaptive.is_default() <==> adaptive.enabled && adaptive.min_hedge_width == 1
            && adaptive.max_hedge_width == 4 && adaptive.rps_window_secs == 30
            && adaptive.medium_load_requests == 1_200 && adaptive.high_load_requests == 3_600
            && adaptive.medium_latency_spread_ms == 75 && adaptive.high_latency_spread_ms == 175
            && adaptive.max_latency_samples == 180,
        probe.is_default() <==> probe.enabled && probe.interval_secs == 10 && probe.timeout_ms
            == 1_200 && probe.method@ == "getHealth"@ && json_tree(probe.params)
            == JsonTree::Array(Seq::empty()),
{
}

} // verus!
