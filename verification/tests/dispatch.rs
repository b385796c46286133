use std::time::Duration;

use bytes::Bytes;
use rpc_gateway::gateway::dispatch::{choose_candidates, DispatchStep, ReliabilityDispatch};
use rpc_gateway::gateway::response::{
    share_result, CallSuccess, DispatchError, GatewayResponse, HedgedOutcome, LostRace,
    ProviderFailure,
};
use rpc_gateway::settings::{AdaptiveHedgingConfig, ReliabilityConfig};

fn config(adaptive: bool, hedge_delay_ms: u64) -> ReliabilityConfig {
    ReliabilityConfig {
        hedge_delay_ms,
        adaptive_hedging: AdaptiveHedgingConfig {
            enabled: adaptive,
            ..AdaptiveHedgingConfig::default()
        },
        ..ReliabilityConfig::default()
    }
}

fn success(index: usize) -> CallSuccess {
    CallSuccess {
        provider: format!("p{index}"),
        body: Bytes::from_static(b"{}"),
        provider_index: index,
        latency: Duration::from_millis(1),
        rate_limit_headroom: None,
    }
}

fn failure(name: &str) -> ProviderFailure {
    ProviderFailure::new(name, "down")
}

fn lost_race(raced: bool) -> LostRace {
    LostRace { raced, failures: vec![failure("a"), failure("b")] }
}

fn called(step: DispatchStep, index: usize) -> ReliabilityDispatch {
    match step {
        DispatchStep::Call(dispatch, called) => {
            assert_eq!(called, index);
            dispatch
        }
        _ => panic!("a provider should be called"),
    }
}

fn answered(step: DispatchStep) -> GatewayResponse {
    match step {
        DispatchStep::Done(Ok(response)) => response,
        _ => panic!("there should be an answer"),
    }
}

fn failed(step: DispatchStep) -> Vec<String> {
    match step {
        DispatchStep::Done(Err(error)) => error.failures.into_iter().map(|f| f.provider).collect(),
        _ => panic!("there should be no answer"),
    }
}

#[test]
fn candidates_are_limited() {
    let mut reliability = config(false, 0);
    assert_eq!(choose_candidates(&reliability, &vec![5, 1, 4, 2]), vec![5, 1, 4]);
    assert_eq!(choose_candidates(&reliability, &vec![5, 1]), vec![5, 1]);
    reliability.max_failover_attempts = 0;
    assert_eq!(choose_candidates(&reliability, &vec![5, 1]), vec![5]);
}

#[test]
fn failover_follows_the_ranking() {
    let step = ReliabilityDispatch::start(&config(false, 0), vec![5, 1, 4], 3);
    let dispatch = called(step, 5);
    let dispatch = called(dispatch.after_call(Err(failure("a"))), 1);
    let response = answered(dispatch.after_call(Ok(success(1))));
    assert_eq!(response.provider, "p1");
    assert_eq!(response.attempts, 2);
    assert!(!response.hedged);
    assert_eq!(response.hedge_width, 1);
    assert!(!response.consensus_checked);
    assert_eq!(response.consensus_agreement, None);
}

#[test]
fn all_failures_are_reported_in_order() {
    let step = ReliabilityDispatch::start(&config(false, 0), vec![5, 1], 3);
    let dispatch = called(step, 5);
    let dispatch = called(dispatch.after_call(Err(failure("a"))), 1);
    assert_eq!(failed(dispatch.after_call(Err(failure("b")))), vec!["a", "b"]);
}

#[test]
fn no_candidates_is_an_error() {
    let step = ReliabilityDispatch::start(&config(true, 10), vec![], 3);
    assert_eq!(failed(step), vec!["gateway"]);
}

#[test]
fn adaptive_width_decides_on_a_race() {
    let reliability = config(true, 10);
    let step = ReliabilityDispatch::start(&reliability, vec![5, 1, 4], 2);
    let DispatchStep::RaceParallel(dispatch, racers) = step else {
        panic!("two providers should be raced");
    };
    assert_eq!(racers, vec![5, 1]);
    let lost = dispatch.after_race(2, Err(lost_race(true)));
    let dispatch = called(lost, 4);
    let response = answered(dispatch.after_call(Ok(success(4))));
    assert_eq!(response.attempts, 3);
    assert!(response.hedged);
    assert_eq!(response.hedge_width, 2);

    let wide = ReliabilityDispatch::start(&reliability, vec![5, 1], 9);
    assert!(matches!(wide, DispatchStep::RaceParallel(_, racers) if racers == vec![5, 1]));
    called(ReliabilityDispatch::start(&reliability, vec![5, 1], 1), 5);
    called(ReliabilityDispatch::start(&reliability, vec![5, 1], 0), 5);
}

#[test]
fn head_start_decides_on_a_race_of_two() {
    let step = ReliabilityDispatch::start(&config(false, 10), vec![5, 1, 4], 3);
    let DispatchStep::RaceLegacy(dispatch, primary, secondary) = step else {
        panic!("two providers should be raced");
    };
    assert_eq!((primary, secondary), (5, 1));
    let won = HedgedOutcome {
        success: success(1),
        attempts: 2,
        hedged: true,
        hedge_width: 2,
    };
    let response = answered(dispatch.after_race(2, Ok(won)));
    assert_eq!(response.provider, "p1");
    assert_eq!(response.attempts, 2);
    assert!(response.hedged);
    assert_eq!(response.hedge_width, 2);
}

#[test]
fn two_failures_one_after_the_other_are_no_race() {
    for raced in [false, true] {
        let step = ReliabilityDispatch::start(&config(false, 150), vec![5, 1, 4], 3);
        let DispatchStep::RaceLegacy(dispatch, _, _) = step else {
            panic!("two providers should be tried");
        };
        let dispatch = called(dispatch.after_race(2, Err(lost_race(raced))), 4);
        let response = answered(dispatch.after_call(Ok(success(4))));
        assert_eq!(response.provider, "p4");
        assert_eq!(response.attempts, 3);
        assert_eq!(response.hedged, raced);
        assert_eq!(response.hedge_width, if raced { 2 } else { 1 });
    }
}

#[test]
fn a_single_candidate_is_never_raced() {
    called(ReliabilityDispatch::start(&config(true, 10), vec![5], 3), 5);
    called(ReliabilityDispatch::start(&config(false, 10), vec![5], 3), 5);
}

#[test]
fn lost_race_without_further_candidates_fails() {
    let step = ReliabilityDispatch::start(&config(false, 10), vec![5, 1], 1);
    let DispatchStep::RaceLegacy(dispatch, _, _) = step else {
        panic!("two providers should be raced");
    };
    let lost = dispatch.after_race(2, Err(lost_race(true)));
    assert_eq!(failed(lost), vec!["a", "b"]);
}

#[test]
fn shared_results_are_marked() {
    let step = ReliabilityDispatch::start(&config(false, 0), vec![5], 1);
    let result = Ok(answered(called(step, 5).after_call(Ok(success(5)))));
    let joined = share_result(&result, true).ok().expect("an answer");
    assert!(joined.coalesced);
    assert_eq!(joined.provider, "p5");
    let led = share_result(&result, false).ok().expect("an answer");
    assert!(!led.coalesced);
    let error = Err(DispatchError { failures: vec![failure("a")] });
    let shared = share_result(&error, true).err().expect("an error");
    assert_eq!(shared.failures[0].provider, "a");
}
