use std::cell::Cell;
use std::collections::HashMap;
use std::time::Duration;

use bytes::Bytes;
use rpc_gateway::gateway::call::{CallOutcome, ProbeOutcome, ProbeVerdict};
use rpc_gateway::gateway::cost::{CostAdjustment, CostRoutingStrategy};
use rpc_gateway::gateway::dispatch::{DispatchStep, ReliabilityDispatch};
use rpc_gateway::gateway::engine::{DispatchMode, RequestPlan, RequestStep};
use rpc_gateway::gateway::hedging::{
    LegacyEvent, LegacyHedge, LegacyStep, ParallelHedge, ParallelStep,
};
use rpc_gateway::gateway::ranking::{ranked_provider_indexes, ProviderAssessment};
use rpc_gateway::gateway::response::{
    share_result, CallArrival, CallSuccess, HedgedOutcome, LostRace,
};
use rpc_gateway::gateway::validation::{ValidationPlan, ValidationRound};
use rpc_gateway::gateway::{DispatchError, Gateway, GatewayResponse, ProviderFailure};
use rpc_gateway::settings::{
    AdaptiveHedgingConfig, CacheConfig, CoalescingConfig, ConsensusValidationConfig,
    CostRoutingConfig, MethodPolicyConfig, MethodPolicyOverride, PredictiveScoringConfig,
    ProbeConfig, ProviderConfig, ReliabilityConfig, ServerConfig, Settings, ShadowModeConfig,
};
use rpc_gateway::time::{Clock, Moment};
use serde_json::Value;

const GET_SLOT: &[u8] = br#"{"jsonrpc":"2.0","id":1,"method":"getSlot","params":[]}"#;
const GET_BALANCE: &[u8] = br#"{"jsonrpc":"2.0","id":1,"method":"getBalance","params":["11111111111111111111111111111111"]}"#;

fn at(millis: u128) -> Moment {
    Moment {
        monotonic_ns: millis * 1_000_000,
        unix_ms: 1_700_000_000_000 + millis,
    }
}

enum ResponseMode {
    Static(&'static str),
    CounterNumber,
}

struct MockProvider {
    status: u16,
    response_mode: ResponseMode,
    delay_ms: u64,
    hits: Cell<usize>,
}

impl MockProvider {
    fn new(status: u16, body: &'static str, delay_ms: u64) -> Self {
        MockProvider {
            status,
            response_mode: ResponseMode::Static(body),
            delay_ms,
            hits: Cell::new(0),
        }
    }

    fn counting() -> Self {
        MockProvider {
            status: 200,
            response_mode: ResponseMode::CounterNumber,
            delay_ms: 0,
            hits: Cell::new(0),
        }
    }

    fn call(&self) -> CallOutcome {
        self.hits.set(self.hits.get() + 1);
        let body = match self.response_mode {
            ResponseMode::Static(body) => body.to_string(),
            ResponseMode::CounterNumber => {
                format!(r#"{{"jsonrpc":"2.0","id":1,"result":{}}}"#, self.hits.get())
            }
        };
        CallOutcome::Answered {
            status: self.status,
            headers: vec![("content-type".to_string(), "application/json".to_string())],
            body: Bytes::from(body),
            latency: Duration::from_millis(self.delay_ms),
        }
    }
}

fn provider_config(name: &str, weight: u32) -> ProviderConfig {
    ProviderConfig {
        name: name.to_string(),
        url: format!("http://{name}/"),
        weight,
        timeout_ms: None,
        headers: HashMap::new(),
        shadow_mode: false,
        shadow_warmup_secs: None,
        shadow_min_observations: None,
        cost_rank: None,
    }
}

fn provider_config_with_cost(name: &str, weight: u32, cost: f64) -> ProviderConfig {
    let mut provider = provider_config(name, weight);
    provider.cost_rank = Some(cost.to_bits());
    provider
}

fn reliability_for_test() -> ReliabilityConfig {
    ReliabilityConfig {
        request_timeout_ms: 1_500,
        hedge_delay_ms: 0,
        max_failover_attempts: 3,
        unhealthy_after_failures: 3,
        recovery_after_secs: 1,
        probe: ProbeConfig {
            enabled: false,
            ..ProbeConfig::default()
        },
        adaptive_hedging: AdaptiveHedgingConfig {
            enabled: false,
            ..AdaptiveHedgingConfig::default()
        },
        predictive_scoring: PredictiveScoringConfig {
            enabled: false,
            ..PredictiveScoringConfig::default()
        },
        shadow_mode: ShadowModeConfig {
            enabled: false,
            ..ShadowModeConfig::default()
        },
        coalescing: CoalescingConfig { enabled: true },
        consensus_validation: ConsensusValidationConfig {
            enabled: false,
            sample_size: 3,
            fail_open: false,
        },
        cost_routing: CostRoutingConfig {
            enabled: false,
            strategy: "balanced".to_string(),
        },
    }
}

fn disabled_cache() -> CacheConfig {
    CacheConfig {
        enabled: false,
        ttl_secs: 1,
        max_capacity: 100,
        cacheable_methods: Vec::new(),
        method_ttl_secs: Vec::new(),
    }
}

fn settings_for_test(
    providers: Vec<ProviderConfig>,
    reliability: ReliabilityConfig,
    cache: CacheConfig,
) -> Settings {
    Settings {
        server: ServerConfig::default(),
        reliability,
        cache,
        method_policy: MethodPolicyConfig::default(),
        providers,
    }
}

fn build(settings: Settings) -> Gateway {
    Gateway::from_settings_at(settings, Clock::start(), at(0)).ok().expect("gateway should build")
}

/// The score of a provider's health, without any latency known.
fn health_score(assessment: &ProviderAssessment) -> f64 {
    let snapshot = &assessment.snapshot;
    let total = snapshot.total_success + snapshot.total_failures;
    let success_rate = if total == 0 {
        1.0
    } else {
        snapshot.total_success as f64 / total as f64
    };
    snapshot.weight as f64 * 10.0 + success_rate * 100.0
        - 5.0
        - snapshot.consecutive_failures as f64 * 30.0
        - if snapshot.healthy { 0.0 } else { 10_000.0 }
}

fn cost_factor(adjustment: CostAdjustment) -> f64 {
    match adjustment {
        CostAdjustment::Unchanged => 1.0,
        CostAdjustment::UnknownPrice => 0.9,
        CostAdjustment::Compared { lowest, price, strategy } => {
            let ratio = (f64::from_bits(lowest) / f64::from_bits(price)).clamp(0.05, 1.0);
            match strategy {
                CostRoutingStrategy::Cheapest => ratio,
                CostRoutingStrategy::Balanced => 0.65 + 0.35 * ratio,
                CostRoutingStrategy::LatencyFirst => 0.85 + 0.15 * ratio,
            }
        }
    }
}

fn ranked(gateway: &mut Gateway, now: Moment) -> Vec<usize> {
    let candidates = gateway.rank_candidates_at(now);
    let scores: Vec<i64> = candidates
        .iter()
        .map(|candidate| {
            (health_score(&candidate.assessment) * cost_factor(candidate.cost) * 1_000.0) as i64
        })
        .collect();
    ranked_provider_indexes(&candidates, &scores)
}

fn arrival(result: Result<CallSuccess, ProviderFailure>) -> CallArrival {
    match result {
        Ok(success) => CallArrival::Answered(success),
        Err(failure) => CallArrival::Failed(failure),
    }
}

fn race_parallel(
    gateway: &mut Gateway,
    mocks: &[&MockProvider],
    racers: &Vec<usize>,
    now: Moment,
) -> Result<HedgedOutcome, LostRace> {
    let mut order = racers.clone();
    order.sort_by_key(|index| mocks[*index].delay_ms);
    let mut hedge = ParallelHedge::new(racers)?;
    for index in order {
        let result = gateway.conclude_call_at(index, mocks[index].call(), now);
        match gateway.attempt_parallel_hedged(hedge, arrival(result)) {
            ParallelStep::Wait(next) => hedge = next,
            ParallelStep::Won(outcome) => return Ok(outcome),
            ParallelStep::Lost(lost) => return Err(lost),
        }
    }
    panic!("a race ends with its last call");
}

fn race_legacy(
    gateway: &mut Gateway,
    mocks: &[&MockProvider],
    primary: usize,
    secondary: usize,
    now: Moment,
) -> Result<HedgedOutcome, LostRace> {
    let delay = gateway.reliability().hedge_delay_ms;
    let mut events = Vec::new();
    if mocks[primary].delay_ms <= delay {
        events.push(Some(primary));
        events.push(Some(secondary));
    } else {
        events.push(None);
        if mocks[primary].delay_ms <= delay + mocks[secondary].delay_ms {
            events.push(Some(primary));
            events.push(Some(secondary));
        } else {
            events.push(Some(secondary));
            events.push(Some(primary));
        }
    }
    let mut hedge = LegacyHedge::new();
    for event in events {
        let event = match event {
            None => LegacyEvent::DelayElapsed,
            Some(index) => {
                let result = gateway.conclude_call_at(index, mocks[index].call(), now);
                LegacyEvent::Finished(result)
            }
        };
        match hedge.step(event) {
            LegacyStep::StartSecondary(next) | LegacyStep::Wait(next) => hedge = next,
            LegacyStep::Done(outcome) => return outcome,
        }
    }
    panic!("a race ends with its last call");
}

fn dispatch(
    gateway: &mut Gateway,
    mocks: &[&MockProvider],
    plan: &RequestPlan,
    now: Moment,
) -> Result<GatewayResponse, DispatchError> {
    let method = plan.method.as_deref();
    let order = ranked(gateway, now);
    if gateway.execute_uncached_request(plan) == DispatchMode::Validated {
        match gateway.dispatch_with_consensus_validation(&order) {
            ValidationPlan::Unserved(error) => return Err(error),
            ValidationPlan::Unvalidated => {}
            ValidationPlan::Ask(mut sample) => {
                let mut round = ValidationRound::new(sample.len());
                sample.sort_by_key(|index| mocks[*index].delay_ms);
                for index in sample {
                    let result = gateway.conclude_call_at(index, mocks[index].call(), now);
                    gateway.record_vote(&mut round, arrival(result), method);
                }
                return gateway.conclude_consensus(method, round);
            }
        }
    }
    let mut step = gateway.dispatch_with_reliability_at(&order, now.monotonic_ns);
    loop {
        step = match step {
            DispatchStep::Done(result) => return result,
            DispatchStep::Call(state, index) => {
                let outcome = mocks[index].call();
                let result = gateway.call_provider(index, outcome, method);
                ReliabilityDispatch::after_call(state, result)
            }
            DispatchStep::RaceParallel(state, racers) => {
                let outcome = race_parallel(gateway, mocks, &racers, now);
                gateway.conclude_race(state, racers.len(), outcome)
            }
            DispatchStep::RaceLegacy(state, primary, secondary) => {
                let outcome = race_legacy(gateway, mocks, primary, secondary, now);
                gateway.conclude_race(state, 2, outcome)
            }
        };
    }
}

fn serve(
    gateway: &mut Gateway,
    mocks: &[&MockProvider],
    body: &'static [u8],
    now: Moment,
) -> Result<GatewayResponse, DispatchError> {
    match gateway.execute_rpc_at(Bytes::from_static(body), now) {
        RequestStep::Respond(response) => Ok(response),
        RequestStep::Join(_) => panic!("nothing is under way"),
        RequestStep::Dispatch(mut plan) => {
            let lead = plan.leads.take();
            let result = dispatch(gateway, mocks, &plan, now);
            let completed = gateway.complete_request_at(plan, result, now);
            if let Some(lead) = lead {
                gateway.finish_lead(&lead);
            }
            completed
        }
    }
}

#[test]
fn failover_uses_secondary_provider_when_primary_fails() {
    let primary =
        MockProvider::new(500, r#"{"jsonrpc":"2.0","id":1,"error":{"code":-32000}}"#, 0);
    let secondary = MockProvider::new(200, r#"{"jsonrpc":"2.0","id":1,"result":2}"#, 0);
    let mut gateway = build(settings_for_test(
        vec![provider_config("primary", 200), provider_config("secondary", 100)],
        reliability_for_test(),
        disabled_cache(),
    ));

    let response = serve(&mut gateway, &[&primary, &secondary], GET_SLOT, at(1))
        .ok()
        .expect("request should eventually succeed");

    assert_eq!(response.provider, "secondary");
    assert_eq!(response.attempts, 2);
    assert!(!response.hedged);
    assert_eq!(response.hedge_width, 1);
    assert!(!response.cache_hit);
    assert!(String::from_utf8_lossy(&response.body).contains("\"result\":2"));
    assert_eq!(primary.hits.get(), 1);
    assert_eq!(secondary.hits.get(), 1);
}

#[test]
fn hedged_requests_prefer_faster_secondary_provider() {
    let primary = MockProvider::new(200, r#"{"jsonrpc":"2.0","id":1,"result":1}"#, 300);
    let secondary = MockProvider::new(200, r#"{"jsonrpc":"2.0","id":1,"result":2}"#, 10);
    let mut reliability = reliability_for_test();
    reliability.hedge_delay_ms = 30;
    reliability.max_failover_attempts = 2;
    let mut gateway = build(settings_for_test(
        vec![provider_config("primary", 300), provider_config("secondary", 100)],
        reliability,
        disabled_cache(),
    ));

    let response = serve(&mut gateway, &[&primary, &secondary], GET_SLOT, at(1))
        .ok()
        .expect("hedged request should succeed");

    assert_eq!(response.provider, "secondary");
    assert_eq!(response.attempts, 2);
    assert!(response.hedged);
    assert_eq!(response.hedge_width, 2);
    assert!(secondary.hits.get() >= 1);
}

#[test]
fn adaptive_hedging_scales_to_three_parallel_providers() {
    let provider_a = MockProvider::new(200, r#"{"jsonrpc":"2.0","id":1,"result":10}"#, 220);
    let provider_b = MockProvider::new(200, r#"{"jsonrpc":"2.0","id":1,"result":11}"#, 100);
    let provider_c = MockProvider::new(200, r#"{"jsonrpc":"2.0","id":1,"result":12}"#, 8);
    let mut reliability = reliability_for_test();
    reliability.adaptive_hedging = AdaptiveHedgingConfig {
        enabled: true,
        min_hedge_width: 1,
        max_hedge_width: 3,
        rps_window_secs: 30,
        medium_load_requests: 3_000,
        high_load_requests: 6_000,
        medium_latency_spread_ms: 40,
        high_latency_spread_ms: 90,
        max_latency_samples: 100,
    };
    let mut gateway = build(settings_for_test(
        vec![
            provider_config("provider-a", 300),
            provider_config("provider-b", 200),
            provider_config("provider-c", 100),
        ],
        reliability,
        disabled_cache(),
    ));

    for (index, millis) in [(0, 210), (1, 130), (2, 20)] {
        gateway.record_success_telemetry(
            &CallSuccess {
                provider: "warm-up".to_string(),
                body: Bytes::new(),
                provider_index: index,
                latency: Duration::from_millis(millis),
                rate_limit_headroom: None,
            },
            None,
        );
    }

    let mocks = [&provider_a, &provider_b, &provider_c];
    let response = serve(&mut gateway, &mocks, GET_SLOT, at(1))
        .ok()
        .expect("adaptive hedged request should succeed");

    assert!(response.hedged);
    assert_eq!(response.hedge_width, 3);
    assert_eq!(response.attempts, 3);
    assert_eq!(response.provider, "provider-c");

    let stats = gateway.hedging_stats();
    assert_eq!(stats.total_hedged_requests, 1);
    assert_eq!(stats.hedge_win_count, 1);
    assert!(stats.observed_latency_spread_ms as f64 >= 150.0);
}

#[test]
fn cache_hits_and_expires_with_method_ttl_override() {
    let provider = MockProvider::counting();
    let cache = CacheConfig {
        enabled: true,
        ttl_secs: 10,
        max_capacity: 100,
        cacheable_methods: vec![],
        method_ttl_secs: vec![("getSlot".to_string(), 1)],
    };
    let mut gateway = build(settings_for_test(
        vec![provider_config("provider-a", 100)],
        reliability_for_test(),
        cache,
    ));

    let first = serve(&mut gateway, &[&provider], GET_SLOT, at(1))
        .ok()
        .expect("first request should succeed");
    let second = serve(&mut gateway, &[&provider], GET_SLOT, at(1_000))
        .ok()
        .expect("second request should succeed");

    assert!(!first.cache_hit);
    assert!(second.cache_hit);
    assert_eq!(first.hedge_width, 1);
    assert_eq!(second.hedge_width, 0);
    assert_eq!(second.attempts, 0);
    assert_eq!(second.provider, "provider-a");
    assert_eq!(second.cached_at_unix_ms, Some(1_700_000_000_001));
    assert_eq!(provider.hits.get(), 1);
    assert_eq!(
        String::from_utf8_lossy(&first.body),
        String::from_utf8_lossy(&second.body)
    );

    let third = serve(&mut gateway, &[&provider], GET_SLOT, at(1_101))
        .ok()
        .expect("third request should succeed");

    assert!(!third.cache_hit);
    assert_eq!(provider.hits.get(), 2);
}

#[test]
fn coalescing_fans_out_identical_in_flight_requests() {
    let provider = MockProvider::new(200, r#"{"jsonrpc":"2.0","id":1,"result":42}"#, 40);
    let mut gateway = build(settings_for_test(
        vec![provider_config("provider-a", 100)],
        reliability_for_test(),
        disabled_cache(),
    ));

    let body = Bytes::from_static(GET_SLOT);
    let RequestStep::Dispatch(mut plan) = gateway.execute_rpc_at(body.clone(), at(1)) else {
        panic!("the first request should be dispatched");
    };
    let RequestStep::Join(joined) = gateway.execute_rpc_at(body, at(2)) else {
        panic!("the second request should join the first");
    };
    let lead = plan.leads.take().expect("others may join");
    assert_eq!(lead.number, joined.number);
    assert_eq!(lead.key, joined.key);
    assert_eq!(gateway.coalescing_stats().in_flight, 1);

    let result = dispatch(&mut gateway, &[&provider], &plan, at(3));
    let result = gateway.complete_request_at(plan, result, at(4));
    gateway.finish_lead(&lead);
    let first = share_result(&result, false).ok().expect("first request should succeed");
    let second = share_result(&result, true).ok().expect("second request should succeed");

    assert_eq!(provider.hits.get(), 1);
    assert!(first.coalesced || second.coalesced);
    let stats = gateway.coalescing_stats();
    assert_eq!(stats.in_flight, 0);
    assert_eq!(stats.leader_count, 1);
    assert_eq!(stats.fanout_count, 1);
}

fn validating(fail_open: bool) -> ReliabilityConfig {
    let mut reliability = reliability_for_test();
    reliability.consensus_validation = ConsensusValidationConfig {
        enabled: true,
        sample_size: 3,
        fail_open,
    };
    reliability
}

fn three_equal_providers() -> Vec<ProviderConfig> {
    vec![
        provider_config("provider-a", 100),
        provider_config("provider-b", 100),
        provider_config("provider-c", 100),
    ]
}

#[test]
fn consensus_validation_accepts_majority_for_critical_method() {
    let provider_a = MockProvider::new(
        200,
        r#"{"jsonrpc":"2.0","id":1,"result":{"context":{"slot":90},"value":500}}"#,
        20,
    );
    let provider_b = MockProvider::new(
        200,
        r#"{"jsonrpc":"2.0","id":1,"result":{"context":{"slot":91},"value":500}}"#,
        5,
    );
    let provider_c = MockProvider::new(
        200,
        r#"{"jsonrpc":"2.0","id":1,"result":{"context":{"slot":91},"value":999}}"#,
        1,
    );
    let mut gateway =
        build(settings_for_test(three_equal_providers(), validating(false), disabled_cache()));

    let mocks = [&provider_a, &provider_b, &provider_c];
    let response = serve(&mut gateway, &mocks, GET_BALANCE, at(1))
        .ok()
        .expect("consensus validation should succeed");

    assert!(response.consensus_checked);
    assert!(response.consensus_validated);
    assert!(response.consensus_critical);
    assert_eq!(response.consensus_agreement.as_deref(), Some("2/3"));
    assert_eq!(response.provider, "provider-b");
}

fn disagreeing() -> [MockProvider; 3] {
    [
        MockProvider::new(
            200,
            r#"{"jsonrpc":"2.0","id":1,"result":{"context":{"slot":90},"value":1}}"#,
            5,
        ),
        MockProvider::new(
            200,
            r#"{"jsonrpc":"2.0","id":1,"result":{"context":{"slot":91},"value":2}}"#,
            10,
        ),
        MockProvider::new(
            200,
            r#"{"jsonrpc":"2.0","id":1,"result":{"context":{"slot":91},"value":3}}"#,
            15,
        ),
    ]
}

#[test]
fn consensus_validation_strict_mode_rejects_disagreement() {
    let [a, b, c] = disagreeing();
    let mut gateway =
        build(settings_for_test(three_equal_providers(), validating(false), disabled_cache()));

    let error = serve(&mut gateway, &[&a, &b, &c], GET_BALANCE, at(1))
        .err()
        .expect("strict consensus mode should reject disagreement");

    assert!(error.failures.iter().any(|failure| failure.provider == "consensus"));
}

#[test]
fn unvalidated_answers_are_passed_on_but_not_kept_when_failing_open() {
    let [a, b, c] = disagreeing();
    let mut gateway = build(settings_for_test(
        three_equal_providers(),
        validating(true),
        CacheConfig::default(),
    ));
    for now in [at(1), at(2)] {
        let response = serve(&mut gateway, &[&a, &b, &c], GET_BALANCE, now)
            .ok()
            .expect("failing open passes some answer on");
        assert!(!response.cache_hit);
        assert!(response.consensus_checked);
        assert!(!response.consensus_validated);
        assert_eq!(response.consensus_agreement.as_deref(), Some("1/3"));
    }
    assert_eq!(a.hits.get(), 2);
}

#[test]
fn cost_routing_prefers_cheapest_provider() {
    let expensive =
        MockProvider::new(200, r#"{"jsonrpc":"2.0","id":1,"result":"expensive"}"#, 0);
    let cheap = MockProvider::new(200, r#"{"jsonrpc":"2.0","id":1,"result":"cheap"}"#, 0);
    let mut reliability = reliability_for_test();
    reliability.max_failover_attempts = 1;
    reliability.cost_routing = CostRoutingConfig {
        enabled: true,
        strategy: "cheapest".to_string(),
    };
    let mut gateway = build(settings_for_test(
        vec![
            provider_config_with_cost("expensive", 100, 20.0),
            provider_config_with_cost("cheap", 100, 1.0),
        ],
        reliability,
        disabled_cache(),
    ));

    let response = serve(&mut gateway, &[&expensive, &cheap], GET_SLOT, at(1))
        .ok()
        .expect("request should succeed");

    assert_eq!(response.provider, "cheap");
    assert_eq!(expensive.hits.get(), 0);
    assert_eq!(cheap.hits.get(), 1);
}

#[test]
fn marks_consensus_critical_methods_in_response() {
    let provider = MockProvider::new(
        200,
        r#"{"jsonrpc":"2.0","id":1,"result":{"context":{"slot":42},"value":1000}}"#,
        0,
    );
    let mut gateway = build(settings_for_test(
        vec![provider_config("provider-a", 100)],
        reliability_for_test(),
        disabled_cache(),
    ));

    let response = serve(&mut gateway, &[&provider], GET_BALANCE, at(1))
        .ok()
        .expect("request should succeed");

    assert!(response.consensus_critical);
}

#[test]
fn method_policy_override_applies_to_unknown_methods() {
    let provider = MockProvider::counting();
    let cache = CacheConfig {
        enabled: true,
        ttl_secs: 10,
        max_capacity: 100,
        cacheable_methods: vec![],
        method_ttl_secs: vec![],
    };
    let mut settings = settings_for_test(
        vec![provider_config("provider-a", 100)],
        reliability_for_test(),
        cache,
    );
    settings.method_policy = MethodPolicyConfig {
        overrides: vec![(
            "customExperimentalMethod".to_string(),
            MethodPolicyOverride {
                cacheable_by_default: Some(true),
                consensus_critical: Some(true),
            },
        )],
    };
    let mut gateway = build(settings);
    let body = br#"{"jsonrpc":"2.0","id":1,"method":"customExperimentalMethod","params":[]}"#;

    let first = serve(&mut gateway, &[&provider], body, at(1))
        .ok()
        .expect("first request should succeed");
    let second = serve(&mut gateway, &[&provider], body, at(2))
        .ok()
        .expect("second request should succeed");

    assert!(!first.cache_hit);
    assert!(first.consensus_critical);
    assert!(second.cache_hit);
    assert!(second.consensus_critical);
    assert_eq!(provider.hits.get(), 1);
}

#[test]
fn provider_health_endpoint_data_shows_probe_failures_from_live_traffic() {
    let provider =
        MockProvider::new(500, r#"{"jsonrpc":"2.0","id":1,"error":{"code":-32000}}"#, 0);
    let mut gateway = build(settings_for_test(
        vec![provider_config("provider-a", 100)],
        reliability_for_test(),
        disabled_cache(),
    ));
    let _ = serve(&mut gateway, &[&provider], GET_SLOT, at(1));

    let health = gateway.provider_health();
    assert_eq!(health.len(), 1);
    assert_eq!(health[0].name, "provider-a");
    assert_eq!(health[0].url, "http://provider-a/");
    assert_eq!(health[0].snapshot.total_failures, 1);
    assert_eq!(health[0].snapshot.total_success, 0);
    assert_eq!(health[0].predictive.total_calls, 1);
}

#[test]
fn probe_config_is_serialized_into_payload() {
    let mut reliability = reliability_for_test();
    reliability.probe = ProbeConfig {
        enabled: true,
        interval_secs: 8,
        timeout_ms: 700,
        method: "getHealth".to_string(),
        params: Value::Array(vec![]),
    };
    let gateway = Gateway::from_settings(settings_for_test(
        vec![provider_config("provider-a", 100)],
        reliability,
        disabled_cache(),
    ))
    .ok()
    .expect("gateway should build");
    let payload: Value = serde_json::from_slice(&gateway.probe_payload())
        .expect("probe payload should be valid json");
    assert_eq!(payload.get("method").and_then(Value::as_str), Some("getHealth"));
    assert_eq!(payload.get("params"), Some(&Value::Array(vec![])));
    let polling: Value = serde_json::from_slice(&gateway.block_lag_probe_payload())
        .expect("block-lag payload should be valid json");
    assert_eq!(polling.get("method").and_then(Value::as_str), Some("getSlot"));
}

#[test]
fn all_failures_are_passed_on() {
    let a = MockProvider::new(500, "boom", 0);
    let b = MockProvider::new(404, "gone", 0);
    let mut gateway = build(settings_for_test(
        vec![provider_config("a", 200), provider_config("b", 100)],
        reliability_for_test(),
        disabled_cache(),
    ));
    let error = serve(&mut gateway, &[&a, &b], GET_SLOT, at(1)).err().expect("both fail");
    let texts: Vec<(&str, &str)> = error
        .failures
        .iter()
        .map(|failure| (failure.provider.as_str(), failure.error.as_str()))
        .collect();
    assert_eq!(texts, vec![("a", "upstream status 500: boom"), ("b", "upstream status 404: gone")]);
}

#[test]
fn unhealthy_providers_are_tried_last() {
    let mut gateway = build(settings_for_test(
        vec![provider_config("a", 200), provider_config("b", 100)],
        reliability_for_test(),
        disabled_cache(),
    ));
    for _ in 0..3 {
        let outcome = CallOutcome::TimedOut;
        let failure = gateway.conclude_call_at(0, outcome, at(10)).err().expect("a failure");
        assert_eq!(failure.error, "request timed out after 1500 ms");
    }
    assert_eq!(ranked(&mut gateway, at(11)), vec![1, 0]);
    assert_eq!(ranked(&mut gateway, at(1_010)), vec![0, 1]);
}

#[test]
fn unknown_methods_are_neither_kept_nor_shared() {
    let mut gateway = build(settings_for_test(
        vec![provider_config("a", 100)],
        reliability_for_test(),
        CacheConfig::default(),
    ));
    let body = Bytes::from_static(br#"{"method":"mystery"}"#);
    let RequestStep::Dispatch(plan) = gateway.execute_rpc_at(body, at(1)) else {
        panic!("an unknown method is dispatched");
    };
    assert!(plan.leads.is_none());
    assert!(plan.cache_plan.is_none());
    assert!(!plan.policy.known);
    assert_eq!(plan.method.as_deref(), Some("mystery"));
}

#[test]
fn requests_are_routed_by_a_given_method() {
    let mut gateway = build(settings_for_test(
        vec![provider_config("a", 100)],
        reliability_for_test(),
        CacheConfig::default(),
    ));
    let step =
        gateway.route_request_at(Bytes::from_static(b""), Some("GETSLOT".to_string()), at(1));
    let RequestStep::Dispatch(plan) = step else {
        panic!("nothing is kept yet");
    };
    let key = "getslot:e3b0c44298fc1c149afbf4c8996fb92427ae41e4649b934ca495991b7852b855";
    let lead = plan.leads.expect("others may join");
    assert_eq!(lead.key, key);
    assert_eq!(plan.cache_plan.expect("may be kept").key, key);
}

#[test]
fn probes_update_health_and_rate_limit() {
    let mut gateway = build(settings_for_test(
        vec![provider_config("a", 100)],
        reliability_for_test(),
        disabled_cache(),
    ));
    let rejected = ProbeOutcome::Answered {
        status: 503,
        headers: vec![],
        body: Bytes::from_static(b"busy"),
    };
    assert!(matches!(
        gateway.probe_provider_at(0, rejected, at(1)),
        ProbeVerdict::Rejected { status: 503, excerpt } if excerpt == "busy"
    ));
    assert!(matches!(
        gateway.probe_provider_at(0, ProbeOutcome::TimedOut, at(2)),
        ProbeVerdict::TimedOut
    ));
    let healthy = ProbeOutcome::Answered {
        status: 200,
        headers: vec![
            ("x-ratelimit-remaining".to_string(), "3".to_string()),
            ("x-ratelimit-limit".to_string(), "4".to_string()),
        ],
        body: Bytes::new(),
    };
    assert!(matches!(gateway.probe_provider_at(0, healthy, at(3)), ProbeVerdict::Healthy));
    let health = gateway.provider_health_at(at(4));
    assert_eq!(health[0].snapshot.total_failures, 2);
    assert_eq!(health[0].snapshot.total_success, 1);
    assert_eq!(health[0].snapshot.consecutive_failures, 0);
    let headroom = health[0].predictive.rate_limit_headroom.expect("was in the headers");
    assert_eq!((headroom.remaining(), headroom.limit()), (3, 4));
}

fn answer(body: &'static [u8]) -> CallOutcome {
    CallOutcome::Answered {
        status: 200,
        headers: vec![],
        body: Bytes::from_static(body),
        latency: Duration::from_millis(5),
    }
}

#[test]
fn answers_to_the_block_method_tell_the_block() {
    let mut gateway = build(settings_for_test(
        vec![provider_config("a", 100), provider_config("b", 100)],
        reliability_for_test(),
        disabled_cache(),
    ));
    let _ = gateway.call_provider(0, answer(br#"{"result":100}"#), Some("GETSLOT"));
    let _ = gateway.call_provider(1, answer(br#"{"result":"0x6e"}"#), Some("getSlot"));
    let _ = gateway.call_provider(1, answer(br#"{"result":7}"#), Some("getBlock"));
    let health = gateway.provider_health_at(at(1));
    assert_eq!(health[0].predictive.block_lag, Some(10));
    assert_eq!(health[1].predictive.block_lag, Some(0));
    assert_eq!(health[1].snapshot.total_success, 2);
}

#[test]
fn shadow_providers_are_mirrored_to_until_they_are_live() {
    let mut reliability = reliability_for_test();
    reliability.shadow_mode = ShadowModeConfig {
        enabled: true,
        default_warmup_secs: 1,
        default_min_observations: 1,
        mirror_max_providers: 2,
    };
    let mut shadow = provider_config("shadow", 500);
    shadow.shadow_mode = true;
    let mut gateway = build(settings_for_test(
        vec![provider_config("a", 100), shadow],
        reliability,
        disabled_cache(),
    ));
    assert_eq!(ranked(&mut gateway, at(1)), vec![0]);
    let mirrors = gateway.assess_mirrors_at(at(1));
    let scores: Vec<i64> =
        mirrors.iter().map(|assessment| health_score(assessment) as i64).collect();
    assert_eq!(gateway.shadow_mirror_candidates(&mirrors, &scores), vec![1]);
    gateway.record_shadow_observation(1);
    assert_eq!(ranked(&mut gateway, at(2_000)), vec![1, 0]);
    assert!(gateway.assess_mirrors_at(at(2_000)).is_empty());
}

#[test]
fn mirroring_is_off_without_shadow_mode() {
    let mut shadow = provider_config("shadow", 500);
    shadow.shadow_mode = true;
    let mut gateway = build(settings_for_test(
        vec![shadow],
        reliability_for_test(),
        disabled_cache(),
    ));
    assert!(gateway.assess_mirrors_at(at(1)).is_empty());
    assert_eq!(ranked(&mut gateway, at(1)), vec![0]);
}

#[test]
fn provider_timeouts_and_counts() {
    let mut quick = provider_config("quick", 100);
    quick.timeout_ms = Some(250);
    let gateway = build(settings_for_test(
        vec![provider_config("a", 100), quick],
        reliability_for_test(),
        disabled_cache(),
    ));
    assert_eq!(gateway.provider_count(), 2);
    assert_eq!(gateway.call_timeout(0), Duration::from_millis(1_500));
    assert_eq!(gateway.call_timeout(1), Duration::from_millis(250));
    assert_eq!(gateway.provider_config(1).name, "quick");
    assert_eq!(gateway.block_lag_polling(), None);
}

fn with_head_start(names: &[&str], attempts: usize) -> Gateway {
    let mut reliability = reliability_for_test();
    reliability.hedge_delay_ms = 150;
    reliability.max_failover_attempts = attempts;
    let providers = names
        .iter()
        .enumerate()
        .map(|(index, name)| provider_config(name, 300 - 100 * index as u32))
        .collect();
    build(settings_for_test(providers, reliability, disabled_cache()))
}

#[test]
fn failures_one_after_the_other_are_not_reported_as_a_race() {
    let failing = || MockProvider::new(500, "down", 1);
    let (a, b) = (failing(), failing());
    let c = MockProvider::new(200, r#"{"jsonrpc":"2.0","id":1,"result":3}"#, 1);
    let mut gateway = with_head_start(&["a", "b", "c"], 3);
    let response = serve(&mut gateway, &[&a, &b, &c], GET_SLOT, at(1)).ok().expect("c answers");
    assert_eq!(response.provider, "c");
    assert_eq!(response.attempts, 3);
    assert!(!response.hedged);
    assert_eq!(response.hedge_width, 1);
    assert_eq!(gateway.hedging_stats().total_hedged_requests, 0);
}

#[test]
fn a_lost_race_is_reported() {
    let a = MockProvider::new(500, "down", 300);
    let b = MockProvider::new(500, "down", 1);
    let c = MockProvider::new(200, r#"{"jsonrpc":"2.0","id":1,"result":3}"#, 1);
    let mut gateway = with_head_start(&["a", "b", "c"], 3);
    let response = serve(&mut gateway, &[&a, &b, &c], GET_SLOT, at(1)).ok().expect("c answers");
    assert_eq!(response.provider, "c");
    assert_eq!(response.attempts, 3);
    assert!(response.hedged);
    assert_eq!(response.hedge_width, 2);
}

#[test]
fn only_hedged_requests_are_counted_as_hedged() {
    let a = MockProvider::new(200, r#"{"jsonrpc":"2.0","id":1,"result":1}"#, 1);
    let b = MockProvider::new(200, r#"{"jsonrpc":"2.0","id":1,"result":2}"#, 1);
    let mut gateway = with_head_start(&["a", "b"], 2);
    let response = serve(&mut gateway, &[&a, &b], GET_SLOT, at(1)).ok().expect("a answers");
    assert_eq!(response.provider, "a");
    assert_eq!(response.attempts, 1);
    assert!(!response.hedged);
    assert_eq!(b.hits.get(), 0);
    assert_eq!(gateway.hedging_stats().total_hedged_requests, 0);
    assert_eq!(gateway.hedging_stats().hedge_win_count, 0);

    let slow = MockProvider::new(200, r#"{"jsonrpc":"2.0","id":1,"result":1}"#, 300);
    let response = serve(&mut gateway, &[&slow, &b], GET_SLOT, at(2)).ok().expect("b answers");
    assert_eq!(response.provider, "b");
    assert!(response.hedged);
    assert_eq!(gateway.hedging_stats().total_hedged_requests, 1);
    assert_eq!(gateway.hedging_stats().hedge_win_count, 1);
}

#[test]
fn requests_are_not_routed_to_providers_in_shadow_mode() {
    let mut reliability = reliability_for_test();
    reliability.shadow_mode = ShadowModeConfig {
        enabled: true,
        default_warmup_secs: 1,
        default_min_observations: 1,
        mirror_max_providers: 2,
    };
    let mut shadow = provider_config("shadow", 100);
    shadow.shadow_mode = true;
    let mut gateway = build(settings_for_test(vec![shadow], reliability, disabled_cache()));
    let mock = MockProvider::new(200, r#"{"jsonrpc":"2.0","id":1,"result":1}"#, 1);
    assert_eq!(ranked(&mut gateway, at(1)), Vec::<usize>::new());
    let error = serve(&mut gateway, &[&mock], GET_SLOT, at(1)).err().expect("nobody is live");
    assert_eq!(error.failures.len(), 1);
    assert_eq!(error.failures[0].error, "no providers configured");
    assert_eq!(mock.hits.get(), 0);
    gateway.record_shadow_observation(0);
    let response = serve(&mut gateway, &[&mock], GET_SLOT, at(2_000)).ok().expect("it is live");
    assert_eq!(response.provider, "shadow");
}
