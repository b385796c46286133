use std::collections::HashMap;

use rpc_gateway::gateway::cost::{CostAdjustment, CostRoutingPolicy, CostRoutingStrategy};
use rpc_gateway::gateway::predictive::{ProviderPredictiveView, ProviderScoringResult};
use rpc_gateway::gateway::ranking::{
    mirror_targets, price_candidates, rank_providers, ranked_provider_indexes, retain_live,
    ProviderAssessment, RankEntry,
};
use rpc_gateway::health::ProviderHealthSnapshot;
use rpc_gateway::settings::{CostRoutingConfig, ProviderConfig};

fn entry(index: usize, healthy: bool, score: i64) -> RankEntry {
    RankEntry { index, healthy, score }
}

fn assessment(index: usize, is_live: bool) -> ProviderAssessment {
    ProviderAssessment {
        index,
        snapshot: ProviderHealthSnapshot {
            weight: 100,
            healthy: true,
            consecutive_failures: 0,
            total_success: 0,
            total_failures: 0,
            last_success_unix_ms: None,
            last_failure_unix_ms: None,
            circuit_open_remaining_ms: None,
        },
        scoring: ProviderScoringResult {
            rated: true,
            is_live,
            view: ProviderPredictiveView::default(),
        },
    }
}

fn kept(live: &[bool]) -> Vec<usize> {
    let assessments: Vec<ProviderAssessment> =
        live.iter().enumerate().map(|(index, live)| assessment(index, *live)).collect();
    retain_live(&assessments).iter().map(|kept| kept.index).collect()
}

#[test]
fn healthy_providers_go_first_then_high_scores() {
    let ranked = rank_providers(&vec![
        entry(0, false, 900),
        entry(1, true, -5),
        entry(2, true, 70),
        entry(3, false, 901),
    ]);
    assert_eq!(ranked, vec![2, 1, 3, 0]);
}

#[test]
fn equal_providers_keep_their_order() {
    let ranked = rank_providers(&vec![
        entry(7, true, 1),
        entry(3, true, 1),
        entry(5, true, 2),
        entry(1, true, 1),
    ]);
    assert_eq!(ranked, vec![5, 7, 3, 1]);
    assert_eq!(rank_providers(&vec![]), Vec::<usize>::new());
}

#[test]
fn providers_out_of_service_are_left_out() {
    assert_eq!(kept(&[false, true, false, true]), vec![1, 3]);
    assert_eq!(kept(&[true, true]), vec![0, 1]);
}

#[test]
fn none_is_kept_where_none_is_in_service() {
    assert_eq!(kept(&[false, false]), Vec::<usize>::new());
    assert_eq!(kept(&[]), Vec::<usize>::new());
}

#[test]
fn requests_are_mirrored_to_the_best() {
    let candidates: Vec<ProviderAssessment> =
        [4, 2, 9, 1].iter().map(|index| assessment(*index, false)).collect();
    let scores = vec![10, 30, 30, 20];
    assert_eq!(mirror_targets(&candidates, &scores, 3), vec![2, 9, 1]);
    assert_eq!(mirror_targets(&candidates, &scores, 1), vec![2]);
    assert_eq!(mirror_targets(&candidates, &scores, 9), vec![2, 9, 1, 4]);
    assert_eq!(mirror_targets(&vec![], &vec![], 2), Vec::<usize>::new());
}

fn provider(cost_rank: Option<u64>) -> ProviderConfig {
    ProviderConfig {
        name: "priced".to_string(),
        url: "http://localhost:8545".to_string(),
        weight: 100,
        timeout_ms: None,
        headers: HashMap::new(),
        shadow_mode: false,
        shadow_warmup_secs: None,
        shadow_min_observations: None,
        cost_rank,
    }
}

#[test]
fn prices_are_compared_among_those_that_are_ranked() {
    let config = CostRoutingConfig { enabled: true, strategy: "cheapest".to_string() };
    let providers = vec![provider(Some(5)), provider(Some(20)), provider(None), provider(Some(9))];
    let costs = CostRoutingPolicy::from_config(&config, &providers);
    let ranked: Vec<ProviderAssessment> =
        [1, 2, 3].iter().map(|index| assessment(*index, true)).collect();
    let adjustments: Vec<CostAdjustment> =
        price_candidates(&costs, &ranked).iter().map(|candidate| candidate.cost).collect();
    let strategy = CostRoutingStrategy::Cheapest;
    assert_eq!(
        adjustments,
        vec![
            CostAdjustment::Compared { lowest: 9, price: 20, strategy },
            CostAdjustment::UnknownPrice,
            CostAdjustment::Compared { lowest: 9, price: 9, strategy },
        ]
    );
}

#[test]
fn candidates_are_ranked_by_their_scores() {
    let costs = CostRoutingPolicy::from_config(
        &CostRoutingConfig { enabled: false, strategy: "balanced".to_string() },
        &vec![],
    );
    let mut sick = assessment(3, true);
    sick.snapshot.healthy = false;
    let assessments = vec![sick, assessment(5, true), assessment(6, true)];
    let candidates = price_candidates(&costs, &assessments);
    assert_eq!(candidates[1].cost, CostAdjustment::Unchanged);
    assert_eq!(ranked_provider_indexes(&candidates, &vec![90, 10, 20]), vec![6, 5, 3]);
}
