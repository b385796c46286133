use std::collections::HashMap;

use rpc_gateway::gateway::headroom::{parse_header_u64, parse_rate_limit_headroom, RateLimitHeadroom};
use rpc_gateway::gateway::predictive::{
    find_block_number, parse_block_number, parse_block_number_from_rpc_body,
    PredictiveScoringController, ProviderScoringResult,
};
use rpc_gateway::health::ProviderHealthSnapshot;
use rpc_gateway::settings::{PredictiveScoringConfig, ProviderConfig, ShadowModeConfig};
use rpc_gateway::time::{Clock, Moment};
use serde_json::Value;

fn provider(name: &str, shadow_mode: bool) -> ProviderConfig {
    ProviderConfig {
        name: name.to_string(),
        url: "http://localhost:8545".to_string(),
        weight: 100,
        timeout_ms: None,
        headers: HashMap::new(),
        shadow_mode,
        shadow_warmup_secs: Some(1),
        shadow_min_observations: Some(3),
        cost_rank: None,
    }
}

fn snapshot() -> ProviderHealthSnapshot {
    ProviderHealthSnapshot {
        weight: 100,
        healthy: true,
        consecutive_failures: 0,
        total_success: 10,
        total_failures: 0,
        last_success_unix_ms: None,
        last_failure_unix_ms: None,
        circuit_open_remaining_ms: None,
    }
}

fn at(millis: u128) -> Moment {
    Moment {
        monotonic_ns: millis * 1_000_000,
        unix_ms: 5_000 + millis,
    }
}

fn shadow_config() -> ShadowModeConfig {
    ShadowModeConfig {
        enabled: true,
        default_warmup_secs: 1,
        default_min_observations: 3,
        mirror_max_providers: 1,
    }
}

fn started_at_zero(providers: &[ProviderConfig]) -> PredictiveScoringController {
    PredictiveScoringController::with_clock(
        &PredictiveScoringConfig::default(),
        shadow_config(),
        providers,
        Clock::start(),
        at(0),
    )
}

/// The product of the factors, with a latency of 50 ms.
fn composite_score(result: &ProviderScoringResult) -> f64 {
    let view = &result.view;
    let target = view.target_latency_ms as f64;
    let latency_factor = target / (target + 50.0);
    let success_rate = view.total_success as f64 / view.total_calls as f64;
    let block_factor = view
        .counted_block_lag
        .map(|lag| 1.0 - lag as f64 / view.max_block_lag as f64)
        .unwrap_or(0.85);
    let headroom = view
        .rate_limit_headroom
        .map(|left| left.remaining() as f64 / left.limit() as f64)
        .unwrap_or(1.0);
    let weight = view.weight_percent as f64 / 100.0;
    latency_factor * success_rate * block_factor * headroom * weight * 10_000.0
}

#[test]
fn shadow_provider_promotes_after_warmup_and_observations() {
    let mut controller = started_at_zero(&[provider("shadow-a", true)]);

    let initial = controller.score_provider_at(0, &snapshot(), 100, at(0));
    assert!(!initial.is_live);
    controller.record_shadow_observation_at(0, at(1));
    controller.record_shadow_observation_at(0, at(2));
    controller.record_shadow_observation_at(0, at(3));
    let after = controller.score_provider_at(0, &snapshot(), 100, at(1_100));
    assert!(after.is_live);
    assert_eq!(after.view.shadow.observations, 3);
    assert_eq!(after.view.shadow.promoted_at_unix_ms, Some(6_100));
}

#[test]
fn promotion_takes_both_time_and_observations() {
    let mut controller = started_at_zero(&[provider("shadow-a", true)]);
    controller.record_shadow_observation_at(0, at(1));
    controller.record_shadow_observation_at(0, at(2));
    assert!(!controller.score_provider_at(0, &snapshot(), 100, at(5_000)).is_live);
    assert!(controller.should_mirror_provider_at(0, at(5_000)));
    controller.record_shadow_observation_at(0, at(5_001));
    assert!(!controller.should_mirror_provider_at(0, at(5_002)));
    let result = controller.score_provider_at(0, &snapshot(), 100, at(5_003));
    assert!(result.is_live);
    assert_eq!(result.view.shadow.promoted_at_unix_ms, Some(10_001));
    assert_eq!(result.view.shadow.warmup_remaining_secs, None);
}

#[test]
fn warmup_is_reported_while_it_lasts() {
    let mut slow = provider("shadow-a", true);
    slow.shadow_warmup_secs = Some(60);
    let mut controller = started_at_zero(&[slow, provider("b", false)]);
    let result = controller.score_provider_at(0, &snapshot(), 100, at(500));
    assert!(result.rated);
    assert_eq!(result.view.shadow.warmup_remaining_secs, Some(59));
    assert_eq!(result.view.shadow.min_observations, 3);
    assert!(result.view.shadow.enabled);
    let live = controller.score_provider_at(1, &snapshot(), 100, at(500));
    assert!(live.is_live);
    assert!(!live.view.shadow.enabled);
    assert_eq!(live.view.shadow.promoted_at_unix_ms, Some(5_000));
    assert!(!controller.should_mirror_provider_at(1, at(500)));
}

#[test]
fn block_lag_and_rate_limit_affect_score() {
    let mut controller = PredictiveScoringController::new(
        &PredictiveScoringConfig::default(),
        ShadowModeConfig::default(),
        &[provider("a", false), provider("b", false)],
    );
    let base = composite_score(&controller.score_provider(0, &snapshot(), 100));

    controller.record_block_height(0, 100);
    controller.record_block_height(1, 120);
    controller.record_rate_limit_headroom(
        0,
        RateLimitHeadroom::new(1, 5).expect("a fifth of the limit"),
    );

    let scored = controller.score_provider(0, &snapshot(), 100);
    let degraded = composite_score(&scored);
    assert!(degraded < base);
    assert_eq!(scored.view.block_lag, Some(20));
    assert_eq!(scored.view.counted_block_lag, Some(8));
    assert_eq!(scored.view.max_block_lag, 8);
    assert_eq!(scored.view.target_latency_ms, 120);
    let headroom = scored.view.rate_limit_headroom.expect("was recorded");
    assert_eq!((headroom.remaining(), headroom.limit()), (1, 5));
    assert_eq!(controller.score_provider(1, &snapshot(), 100).view.block_lag, Some(0));
}

#[test]
fn unknown_providers_are_not_rated() {
    let mut controller = started_at_zero(&[provider("a", false)]);
    let result = controller.score_provider_at(1, &snapshot(), 100, at(0));
    assert!(!result.rated);
    assert!(!result.is_live);
    assert_eq!(result.view.total_calls, 0);
    controller.record_block_height(1, 5);
    controller.record_shadow_observation_at(1, at(0));
    assert!(!controller.should_mirror_provider_at(1, at(0)));
}

#[test]
fn weights_count_within_bounds() {
    let mut controller = started_at_zero(&[provider("a", false)]);
    for (weight, counted) in [(0, 10), (10, 10), (137, 137), (1_000, 1_000), (9_999, 1_000)] {
        let result = controller.score_provider_at(0, &snapshot(), weight, at(0));
        assert_eq!(result.view.weight_percent, counted);
    }
}

#[test]
fn success_counts_saturate() {
    let mut controller = started_at_zero(&[provider("a", false)]);
    let mut tired = snapshot();
    tired.total_success = u64::MAX;
    tired.total_failures = 5;
    let result = controller.score_provider_at(0, &tired, 100, at(0));
    assert_eq!(result.view.total_calls, u64::MAX);
}

fn headers(list: &[(&str, &str)]) -> Vec<(String, String)> {
    list.iter().map(|(name, value)| (name.to_string(), value.to_string())).collect()
}

#[test]
fn parses_rate_limit_headers() {
    let mut controller = PredictiveScoringController::new(
        &PredictiveScoringConfig::default(),
        ShadowModeConfig::default(),
        &[provider("a", false)],
    );
    let headers = headers(&[("x-ratelimit-remaining", "30"), ("x-ratelimit-limit", "60")]);
    let headroom = controller
        .record_rate_limit_headers(0, &headers)
        .map(|left| left.remaining() as f64 / left.limit() as f64);
    assert_eq!(headroom, Some(0.5));
}

#[test]
fn rate_limit_headers_have_second_names() {
    let list = headers(&[
        ("x-ratelimit-remaining", "many"),
        ("RateLimit-Remaining", " 90 "),
        ("ratelimit-limit", "60"),
    ]);
    let headroom = parse_rate_limit_headroom(&list).expect("both are there");
    assert_eq!((headroom.remaining(), headroom.limit()), (60, 60));
    assert_eq!(parse_header_u64(&list, "x-ratelimit-remaining", "ratelimit-remaining"), Some(90));
    assert_eq!(parse_header_u64(&list, "absent", "missing"), None);
}

#[test]
fn rate_limit_needs_both_headers_and_a_limit() {
    assert!(parse_rate_limit_headroom(&headers(&[("x-ratelimit-limit", "60")])).is_none());
    assert!(parse_rate_limit_headroom(&headers(&[("x-ratelimit-remaining", "6")])).is_none());
    let none = headers(&[("x-ratelimit-remaining", "0"), ("x-ratelimit-limit", "0")]);
    assert!(parse_rate_limit_headroom(&none).is_none());
    assert!(RateLimitHeadroom::new(1, 0).is_none());
}

#[test]
fn parses_block_number_from_json_rpc_body() {
    let body = br#"{"jsonrpc":"2.0","id":1,"result":"0x2a"}"#;
    assert_eq!(parse_block_number_from_rpc_body(body), Some(42));
}

#[test]
fn parses_solana_slot_number_from_json_rpc_body() {
    let body_numeric = br#"{"jsonrpc":"2.0","id":1,"result":265443576}"#;
    assert_eq!(parse_block_number_from_rpc_body(body_numeric), Some(265443576));

    let body_string = br#"{"jsonrpc":"2.0","id":1,"result":"265443577"}"#;
    assert_eq!(parse_block_number_from_rpc_body(body_string), Some(265443577));
}

#[test]
fn block_numbers_have_their_forms() {
    assert_eq!(parse_block_number("  0X2A\n"), Some(42));
    assert_eq!(parse_block_number("0x0x10"), Some(16));
    assert_eq!(parse_block_number("0x0X10"), Some(16));
    assert_eq!(parse_block_number("0x+f"), Some(15));
    assert_eq!(parse_block_number("+17"), Some(17));
    assert_eq!(parse_block_number("0x"), None);
    assert_eq!(parse_block_number(""), None);
    assert_eq!(parse_block_number("-1"), None);
    assert_eq!(parse_block_number("2a"), None);
    assert_eq!(parse_block_number("18446744073709551615"), Some(u64::MAX));
    assert_eq!(parse_block_number("18446744073709551616"), None);
}

#[test]
fn bodies_without_a_block_number_have_none() {
    assert_eq!(parse_block_number_from_rpc_body(b"oops"), None);
    assert_eq!(parse_block_number_from_rpc_body(br#"{"result":-5}"#), None);
    assert_eq!(parse_block_number_from_rpc_body(br#"{"result":1.5}"#), None);
    assert_eq!(parse_block_number_from_rpc_body(br#"{"result":null}"#), None);
    assert_eq!(parse_block_number_from_rpc_body(br#"{"id":3}"#), None);
    assert_eq!(find_block_number(&Value::Null), None);
}
