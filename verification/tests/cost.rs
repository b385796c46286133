use std::collections::HashMap;

use rpc_gateway::gateway::cost::{CostAdjustment, CostRoutingPolicy, CostRoutingStrategy};
use rpc_gateway::settings::{CostRoutingConfig, ProviderConfig};

fn provider(name: &str, cost: Option<f64>) -> ProviderConfig {
    ProviderConfig {
        name: name.to_string(),
        url: "http://localhost:8545".to_string(),
        weight: 100,
        timeout_ms: None,
        headers: HashMap::new(),
        shadow_mode: false,
        shadow_warmup_secs: None,
        shadow_min_observations: None,
        cost_rank: cost.map(f64::to_bits),
    }
}

fn policy(enabled: bool, strategy: &str, costs: &[Option<f64>]) -> CostRoutingPolicy {
    CostRoutingPolicy::from_config(
        &CostRoutingConfig {
            enabled,
            strategy: strategy.to_string(),
        },
        &costs.iter().map(|cost| provider("p", *cost)).collect(),
    )
}

/// The score that an adjustment leads to.
fn adjusted(score: f64, adjustment: CostAdjustment) -> f64 {
    match adjustment {
        CostAdjustment::Unchanged => score,
        CostAdjustment::UnknownPrice => score * 0.9,
        CostAdjustment::Compared { lowest, price, strategy } => {
            let ratio = (f64::from_bits(lowest) / f64::from_bits(price)).clamp(0.05, 1.0);
            score
                * match strategy {
                    CostRoutingStrategy::Cheapest => ratio,
                    CostRoutingStrategy::Balanced => 0.65 + 0.35 * ratio,
                    CostRoutingStrategy::LatencyFirst => 0.85 + 0.15 * ratio,
                }
        }
    }
}

#[test]
fn cheapest_strategy_penalizes_expensive_provider() {
    let policy = policy(true, "cheapest", &[Some(12.0), Some(3.0)]);
    let min_cost = policy.min_cost_for_indexes(&[0, 1]);
    let expensive = adjusted(100.0, policy.cost_adjustment(0, min_cost));
    let cheap = adjusted(100.0, policy.cost_adjustment(1, min_cost));

    assert!(cheap > expensive);
}

#[test]
fn disabled_strategy_does_not_change_scores() {
    let policy = policy(false, "cheapest", &[Some(12.0), Some(3.0)]);
    let min_cost = policy.min_cost_for_indexes(&[0, 1]);
    assert_eq!(adjusted(77.0, policy.cost_adjustment(0, min_cost)), 77.0);
    assert_eq!(policy.cost_adjustment(0, min_cost), CostAdjustment::Unchanged);
}

#[test]
fn lowest_price_is_that_of_the_given_providers() {
    let policy = policy(true, "balanced", &[Some(12.0), None, Some(3.0), Some(7.5)]);
    assert_eq!(policy.min_cost_for_indexes(&[0, 1, 3]), Some(7.5f64.to_bits()));
    assert_eq!(policy.min_cost_for_indexes(&[0, 1, 2, 3]), Some(3.0f64.to_bits()));
    assert_eq!(policy.min_cost_for_indexes(&[1, 9]), None);
    assert_eq!(policy.min_cost_for_indexes(&[]), None);
    assert_eq!(policy.provider_cost(2), Some(3.0f64.to_bits()));
    assert_eq!(policy.provider_cost(9), None);
}

#[test]
fn adjustments_go_by_what_is_known() {
    let policy = policy(true, "latency-first", &[Some(12.0), None]);
    assert_eq!(policy.cost_adjustment(0, None), CostAdjustment::Unchanged);
    let lowest = policy.min_cost_for_indexes(&[0, 1]);
    assert_eq!(policy.cost_adjustment(1, lowest), CostAdjustment::UnknownPrice);
    assert_eq!(
        policy.cost_adjustment(0, lowest),
        CostAdjustment::Compared {
            lowest: 12.0f64.to_bits(),
            price: 12.0f64.to_bits(),
            strategy: CostRoutingStrategy::LatencyFirst,
        }
    );
}

#[test]
fn strategies_have_their_names() {
    let named = CostRoutingStrategy::from_str;
    assert_eq!(named("cheapest"), CostRoutingStrategy::Cheapest);
    assert_eq!(named("cheapest_healthy_first"), CostRoutingStrategy::Cheapest);
    assert_eq!(named("latency_first"), CostRoutingStrategy::LatencyFirst);
    assert_eq!(named("latency-first"), CostRoutingStrategy::LatencyFirst);
    assert_eq!(named("balanced"), CostRoutingStrategy::Balanced);
    assert_eq!(named("anything"), CostRoutingStrategy::Balanced);
    assert_eq!(named("Cheapest"), CostRoutingStrategy::Balanced);
}
