use std::collections::HashMap;
use std::time::Duration;

use rpc_gateway::settings::{
    default_provider_weight, AdaptiveHedgingConfig, CacheConfig, CoalescingConfig,
    ConsensusValidationConfig, CostRoutingConfig, MethodPolicyConfig, PredictiveScoringConfig,
    ProbeConfig, ProviderConfig, ReliabilityConfig, ServerConfig, Settings, SettingsError,
    ShadowModeConfig,
};
use serde_json::Value;

fn provider() -> ProviderConfig {
    ProviderConfig {
        name: "provider-a".to_string(),
        url: "http://localhost:8545".to_string(),
        weight: 100,
        timeout_ms: None,
        headers: HashMap::new(),
        shadow_mode: false,
        shadow_warmup_secs: None,
        shadow_min_observations: None,
        cost_rank: None,
    }
}

#[test]
fn reliability_normalizes_failover_attempts() {
    let reliability = ReliabilityConfig {
        max_failover_attempts: 0,
        ..ReliabilityConfig::default()
    };

    assert_eq!(reliability.normalized_max_failover_attempts(), 1);
}

#[test]
fn provider_timeout_falls_back_when_none() {
    let provider = provider();

    assert_eq!(
        provider.timeout_or_default(Duration::from_millis(900)),
        Duration::from_millis(900)
    );
}

#[test]
fn provider_timeout_of_its_own_counts() {
    let mut provider = provider();
    provider.timeout_ms = Some(70);
    assert_eq!(
        provider.timeout_or_default(Duration::from_millis(900)),
        Duration::from_millis(70)
    );
}

#[test]
fn probe_interval_and_timeout_have_floor() {
    let probe = ProbeConfig {
        enabled: true,
        interval_secs: 0,
        timeout_ms: 0,
        method: "getHealth".to_string(),
        params: Value::Array(vec![]),
    };

    assert_eq!(probe.interval(), Duration::from_secs(1));
    assert_eq!(probe.timeout(), Duration::from_millis(1));
}

#[test]
fn adaptive_hedging_normalization_enforces_bounds() {
    let adaptive = AdaptiveHedgingConfig {
        enabled: true,
        min_hedge_width: 0,
        max_hedge_width: 0,
        rps_window_secs: 0,
        medium_load_requests: 10,
        high_load_requests: 20,
        medium_latency_spread_ms: 50,
        high_latency_spread_ms: 100,
        max_latency_samples: 0,
    };

    assert_eq!(adaptive.normalized_min_hedge_width(), 1);
    assert_eq!(adaptive.normalized_max_hedge_width(), 1);
    assert_eq!(adaptive.normalized_rps_window_secs(), 1);
    assert_eq!(adaptive.normalized_max_latency_samples(), 5);
}

#[test]
fn predictive_and_shadow_normalization_enforces_bounds() {
    let predictive = PredictiveScoringConfig {
        enabled: true,
        target_latency_ms: 0,
        max_block_lag: 0,
        block_lag_poll_interval_secs: 0,
        block_lag_method: "getSlot".to_string(),
        block_lag_params: Value::Array(vec![]),
    };
    let shadow = ShadowModeConfig {
        enabled: true,
        default_warmup_secs: 0,
        default_min_observations: 0,
        mirror_max_providers: 0,
    };
    let consensus = ConsensusValidationConfig {
        enabled: true,
        sample_size: 50,
        fail_open: false,
    };
    let cost = CostRoutingConfig {
        enabled: true,
        strategy: "  ".to_string(),
    };
    let provider = ProviderConfig {
        shadow_mode: true,
        shadow_warmup_secs: Some(0),
        shadow_min_observations: Some(0),
        ..provider()
    };

    assert_eq!(predictive.normalized_target_latency_ms(), 1);
    assert_eq!(predictive.normalized_max_block_lag(), 1);
    assert_eq!(predictive.block_lag_poll_interval(), Duration::from_secs(1));
    assert_eq!(shadow.normalized_default_warmup_secs(), 1);
    assert_eq!(shadow.normalized_default_min_observations(), 1);
    assert_eq!(shadow.normalized_mirror_max_providers(), 1);
    assert_eq!(consensus.normalized_sample_size(), 3);
    assert_eq!(cost.normalized_strategy(), "balanced");
    assert_eq!(provider.shadow_warmup_or_default(300), 1);
    assert_eq!(provider.shadow_min_observations_or_default(50), 1);
}

#[test]
fn sample_size_is_two_or_three() {
    for (size, normalized) in [(0, 2), (1, 2), (2, 2), (3, 3), (4, 3)] {
        let config = ConsensusValidationConfig {
            enabled: true,
            sample_size: size,
            fail_open: true,
        };
        assert_eq!(config.normalized_sample_size(), normalized);
    }
}

#[test]
fn strategy_names_are_trimmed_and_lowered() {
    let cost = CostRoutingConfig {
        enabled: true,
        strategy: "\u{3000} ChEaPest\t".to_string(),
    };
    assert_eq!(cost.normalized_strategy(), "cheapest");
}

#[test]
fn fallbacks_of_a_provider() {
    let provider = provider();
    assert_eq!(provider.shadow_warmup_or_default(300), 300);
    assert_eq!(provider.shadow_min_observations_or_default(50), 50);
    assert_eq!(default_provider_weight(), 100);
}

#[test]
fn defaults_are_as_documented() {
    let reliability = ReliabilityConfig::default();
    assert_eq!(reliability.request_timeout(), Duration::from_secs(2));
    assert_eq!(reliability.hedge_delay(), Duration::from_millis(150));
    assert_eq!(reliability.recovery_after(), Duration::from_secs(15));
    assert_eq!(reliability.max_failover_attempts, 3);
    assert_eq!(reliability.unhealthy_after_failures, 3);
    assert!(reliability.adaptive_hedging.enabled);
    assert_eq!(reliability.adaptive_hedging.max_hedge_width, 4);
    assert_eq!(reliability.adaptive_hedging.medium_load_requests, 1_200);
    assert_eq!(reliability.adaptive_hedging.high_load_requests, 3_600);
    assert!(reliability.predictive_scoring.enabled);
    assert_eq!(reliability.predictive_scoring.block_lag_method, "getSlot");
    assert_eq!(reliability.predictive_scoring.block_lag_params, Value::Array(vec![]));
    assert_eq!(reliability.probe.method, "getHealth");
    assert_eq!(reliability.probe.params, Value::Array(vec![]));
    assert!(reliability.shadow_mode.enabled);
    assert_eq!(reliability.shadow_mode.default_warmup_secs, 300);
    assert!(!reliability.consensus_validation.enabled);
    assert_eq!(reliability.cost_routing.strategy, "balanced");
    assert!(CoalescingConfig::default().enabled);
    assert_eq!(ServerConfig::default().bind_addr, "0.0.0.0:8080");
    let cache = CacheConfig::default();
    assert!(cache.enabled);
    assert_eq!(cache.ttl_secs, 2);
    assert_eq!(cache.max_capacity, 20_000);
    assert!(MethodPolicyConfig::default().overrides.is_empty());
}

fn settings(providers: Vec<ProviderConfig>) -> Settings {
    Settings {
        server: ServerConfig::default(),
        reliability: ReliabilityConfig::default(),
        cache: CacheConfig::default(),
        method_policy: MethodPolicyConfig::default(),
        providers,
    }
}

#[test]
fn settings_need_a_provider() {
    let error = settings(vec![]).validated().err().expect("there is no provider");
    assert_eq!(error, SettingsError::NoProviders);
    assert_eq!(error.message(), "at least one provider must be configured");
    let valid = settings(vec![provider()]).validated().ok().expect("there is a provider");
    assert_eq!(valid.providers.len(), 1);
}

#[test]
fn config_path_comes_from_the_environment() {
    assert_eq!(Settings::config_path(None), "config/gateway.toml");
    assert_eq!(Settings::config_path(Some("other.toml".to_string())), "other.toml");
}
