use std::time::Duration;

use rpc_gateway::gateway::adaptive::{AdaptiveHedgingController, HedgeReason};
use rpc_gateway::settings::AdaptiveHedgingConfig;

const SECOND: u128 = 1_000_000_000;

/// Thresholds of 5.0 and 10.0 requests a second over a window of one second.
fn config_for_test() -> AdaptiveHedgingConfig {
    AdaptiveHedgingConfig {
        enabled: true,
        min_hedge_width: 1,
        max_hedge_width: 4,
        rps_window_secs: 1,
        medium_load_requests: 5,
        high_load_requests: 10,
        medium_latency_spread_ms: 60,
        high_latency_spread_ms: 150,
        max_latency_samples: 100,
    }
}

#[test]
fn chooses_max_width_for_high_latency_spread() {
    let mut controller = AdaptiveHedgingController::new(config_for_test(), 4);
    controller.record_provider_latency(0, Duration::from_millis(40));
    controller.record_provider_latency(1, Duration::from_millis(80));
    controller.record_provider_latency(2, Duration::from_millis(220));
    controller.record_provider_latency(3, Duration::from_millis(240));

    let decision = controller.decide_hedge_width(&[0, 1, 2, 3]);
    assert_eq!(decision.hedge_width, 4);
    assert_eq!(decision.reason, HedgeReason::HighLatencyVariance);
    assert_eq!(decision.observed_latency_spread_ms, 200);
}

#[test]
fn reduces_width_on_high_load_even_with_variance() {
    let mut controller = AdaptiveHedgingController::new(config_for_test(), 3);
    controller.record_provider_latency(0, Duration::from_millis(30));
    controller.record_provider_latency(1, Duration::from_millis(140));
    controller.record_provider_latency(2, Duration::from_millis(200));

    for _ in 0..20 {
        controller.record_request();
    }

    let decision = controller.decide_hedge_width(&[0, 1, 2]);
    assert_eq!(decision.hedge_width, 1);
    assert_eq!(decision.reason, HedgeReason::HighLoad);
}

#[test]
fn moderate_variance_picks_middle_width_on_low_load() {
    let mut config = config_for_test();
    config.max_hedge_width = 3;
    let mut controller = AdaptiveHedgingController::new(config, 3);
    controller.record_provider_latency(0, Duration::from_millis(40));
    controller.record_provider_latency(1, Duration::from_millis(100));
    controller.record_provider_latency(2, Duration::from_millis(115));

    let decision = controller.decide_hedge_width(&[0, 1, 2]);
    assert_eq!(decision.hedge_width, 2);
    assert_eq!(decision.reason, HedgeReason::ModerateVarianceLowLoad);
}

#[test]
fn old_requests_age_out_from_rps_window() {
    let mut controller = AdaptiveHedgingController::new(config_for_test(), 2);
    for _ in 0..8 {
        controller.record_request_at(0);
    }
    controller.record_request_at(SECOND + SECOND / 5);

    let decision = controller.decide_hedge_width_at(&[0, 1], SECOND + SECOND / 5);
    let window = controller.stats_snapshot().observed_window_secs;
    let observed_rps = decision.observed_requests as f64 / window as f64;
    assert!(observed_rps < 3.0);
    assert_eq!(decision.observed_requests, 1);
}

#[test]
fn hedge_win_rate_tracks_winner_outcomes() {
    let mut controller = AdaptiveHedgingController::new(config_for_test(), 2);
    controller.record_hedge_outcome(0, 0);
    controller.record_hedge_outcome(0, 1);
    controller.record_hedge_outcome(0, 1);
    let snapshot = controller.stats_snapshot();

    assert_eq!(snapshot.total_hedged_requests, 3);
    assert_eq!(snapshot.hedge_win_count, 2);
    let hedge_win_rate = snapshot.hedge_win_count as f64 / snapshot.total_hedged_requests as f64;
    assert!((hedge_win_rate - (2.0 / 3.0)).abs() < 0.0001);
}

#[test]
fn requests_stay_for_exactly_the_window() {
    let mut controller = AdaptiveHedgingController::new(config_for_test(), 2);
    controller.record_request_at(5);
    assert_eq!(controller.decide_hedge_width_at(&[0], 5 + SECOND).observed_requests, 1);
    assert_eq!(controller.decide_hedge_width_at(&[0], 6 + SECOND).observed_requests, 0);
}

#[test]
fn load_thresholds_are_inclusive() {
    let mut controller = AdaptiveHedgingController::new(config_for_test(), 2);
    controller.record_provider_latency(0, Duration::from_millis(0));
    controller.record_provider_latency(1, Duration::from_millis(60));
    for _ in 0..4 {
        controller.record_request_at(0);
    }
    let decision = controller.decide_hedge_width_at(&[0, 1], 0);
    assert_eq!(decision.reason, HedgeReason::ModerateVarianceLowLoad);
    controller.record_request_at(0);
    let decision = controller.decide_hedge_width_at(&[0, 1], 0);
    assert_eq!(decision.reason, HedgeReason::ModerateVarianceModerateLoad);
    assert_eq!(decision.hedge_width, 1);
    for _ in 0..5 {
        controller.record_request_at(0);
    }
    let decision = controller.decide_hedge_width_at(&[0, 1], 0);
    assert_eq!(decision.reason, HedgeReason::HighLoad);
    assert_eq!(decision.observed_requests, 10);
}

#[test]
fn low_variance_keeps_the_least_width() {
    let mut config = config_for_test();
    config.min_hedge_width = 2;
    let mut controller = AdaptiveHedgingController::new(config, 3);
    let decision = controller.decide_hedge_width_at(&[0, 1, 2], 0);
    assert_eq!(decision.reason, HedgeReason::LowVariance);
    assert_eq!(decision.hedge_width, 2);
    let decision = controller.decide_hedge_width_at(&[2], 0);
    assert_eq!(decision.hedge_width, 1);
    assert_eq!(controller.stats_snapshot().last_decision_reason, Some(HedgeReason::LowVariance));
}

#[test]
fn no_candidates_and_disabled_have_their_reasons() {
    let mut config = config_for_test();
    config.enabled = false;
    let mut controller = AdaptiveHedgingController::new(config, 0);
    let decision = controller.decide_hedge_width_at(&[], 0);
    assert_eq!(decision.hedge_width, 0);
    assert_eq!(decision.reason, HedgeReason::NoCandidates);
    let decision = controller.decide_hedge_width_at(&[0, 1], 0);
    assert_eq!(decision.hedge_width, 1);
    assert_eq!(decision.reason, HedgeReason::AdaptiveDisabled);
}

#[test]
fn spread_compares_95th_percentiles() {
    let mut controller = AdaptiveHedgingController::new(config_for_test(), 2);
    for millis in (1..=20).rev() {
        controller.record_provider_latency(0, Duration::from_millis(millis * 10));
    }
    controller.record_provider_latency(1, Duration::from_millis(10));
    let decision = controller.decide_hedge_width_at(&[0, 1], 0);
    assert_eq!(decision.observed_latency_spread_ms, 180);
    controller.record_provider_latency(0, Duration::from_millis(500));
    let decision = controller.decide_hedge_width_at(&[0, 1], 0);
    assert_eq!(decision.observed_latency_spread_ms, 190);
    let decision = controller.decide_hedge_width_at(&[0, 9], 0);
    assert_eq!(decision.observed_latency_spread_ms, 0);
}

#[test]
fn only_recent_samples_count() {
    let mut config = config_for_test();
    config.max_latency_samples = 0;
    let mut controller = AdaptiveHedgingController::new(config, 2);
    controller.record_provider_latency(0, Duration::from_millis(900));
    for _ in 0..5 {
        controller.record_provider_latency(0, Duration::from_micros(7_900));
    }
    controller.record_provider_latency(1, Duration::from_millis(2));
    controller.record_provider_latency(5, Duration::from_millis(2));
    let decision = controller.decide_hedge_width_at(&[0, 1], 0);
    assert_eq!(decision.observed_latency_spread_ms, 5);
}
