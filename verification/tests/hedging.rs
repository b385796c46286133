use std::time::Duration;

use bytes::Bytes;
use rpc_gateway::gateway::hedging::{
    LegacyEvent, LegacyHedge, LegacyStep, ParallelHedge, ParallelStep,
};
use rpc_gateway::gateway::response::{CallArrival, CallSuccess, ProviderFailure};

fn success(index: usize) -> CallSuccess {
    CallSuccess {
        provider: format!("p{index}"),
        body: Bytes::from_static(b"{}"),
        provider_index: index,
        latency: Duration::from_millis(1),
        rate_limit_headroom: None,
    }
}

fn answered(index: usize) -> LegacyEvent {
    LegacyEvent::Finished(Ok(success(index)))
}

fn failed(name: &str) -> LegacyEvent {
    LegacyEvent::Finished(Err(ProviderFailure::new(name, "down")))
}

fn secondary(step: LegacyStep) -> LegacyHedge {
    match step {
        LegacyStep::StartSecondary(hedge) => hedge,
        _ => panic!("the second provider should be called"),
    }
}

fn waiting(step: LegacyStep) -> LegacyHedge {
    match step {
        LegacyStep::Wait(hedge) => hedge,
        _ => panic!("the race should go on"),
    }
}

/// The winner, the attempts, whether there was a race, and its width.
fn won(step: LegacyStep) -> (usize, usize, bool, usize) {
    match step {
        LegacyStep::Done(Ok(outcome)) => (
            outcome.success.provider_index,
            outcome.attempts,
            outcome.hedged,
            outcome.hedge_width,
        ),
        _ => panic!("the race should be won"),
    }
}

/// Whether there was a race, and who failed in it.
fn lost(step: LegacyStep) -> (bool, Vec<String>) {
    match step {
        LegacyStep::Done(Err(lost)) => {
            (lost.raced, lost.failures.into_iter().map(|f| f.provider).collect())
        }
        _ => panic!("the race should be lost"),
    }
}

#[test]
fn first_provider_in_time_needs_no_race() {
    assert_eq!(won(LegacyHedge::new().step(answered(0))), (0, 1, false, 1));
}

#[test]
fn second_provider_steps_in_at_once_for_a_failed_first() {
    let alone = || secondary(LegacyHedge::new().step(failed("a")));
    assert_eq!(won(alone().step(answered(1))), (1, 2, false, 1));
    assert_eq!(
        lost(alone().step(failed("b"))),
        (false, vec!["a".to_string(), "b".to_string()])
    );
    assert!(!waiting(alone().step(LegacyEvent::DelayElapsed)).raced);
}

#[test]
fn slow_first_provider_is_raced() {
    let racing = || secondary(LegacyHedge::new().step(LegacyEvent::DelayElapsed));
    assert_eq!(won(racing().step(answered(0))), (0, 2, true, 2));
    assert_eq!(won(racing().step(answered(1))), (1, 2, true, 2));
    let one_left = || waiting(racing().step(failed("b")));
    assert_eq!(won(one_left().step(answered(0))), (0, 2, true, 2));
    assert_eq!(
        lost(one_left().step(failed("a"))),
        (true, vec!["b".to_string(), "a".to_string()])
    );
}

#[test]
fn parallel_race_is_won_by_the_first_answer() {
    let hedge = ParallelHedge::new(&vec![4, 5, 6]).ok().expect("three providers");
    let failure = CallArrival::Failed(ProviderFailure::new("p4", "down"));
    let ParallelStep::Wait(hedge) = hedge.step(failure) else {
        panic!("two calls are under way");
    };
    let ParallelStep::Won(outcome) = hedge.step(CallArrival::Answered(success(6))) else {
        panic!("an answer wins");
    };
    assert_eq!(outcome.success.provider_index, 6);
    assert_eq!(outcome.attempts, 3);
    assert!(outcome.hedged);
    assert_eq!(outcome.hedge_width, 3);
}

#[test]
fn parallel_race_is_lost_with_the_last_failure() {
    let hedge = ParallelHedge::new(&vec![4, 5]).ok().expect("two providers");
    let ParallelStep::Wait(hedge) = hedge.step(CallArrival::Lost("aborted".to_string())) else {
        panic!("one call is under way");
    };
    let failure = CallArrival::Failed(ProviderFailure::new("p5", "down"));
    let ParallelStep::Lost(lost) = hedge.step(failure) else {
        panic!("nothing is under way");
    };
    assert!(lost.raced);
    let failures = lost.failures;
    assert_eq!(failures.len(), 2);
    assert_eq!(failures[0].provider, "gateway");
    assert_eq!(failures[0].error, "hedged task join error: aborted");
    assert_eq!(failures[1].provider, "p5");
}

#[test]
fn parallel_race_needs_providers() {
    let lost = ParallelHedge::new(&vec![]).err().expect("no providers");
    assert!(!lost.raced);
    let failures = lost.failures;
    assert_eq!(failures.len(), 1);
    assert_eq!(failures[0].provider, "gateway");
    assert_eq!(failures[0].error, "adaptive hedge received no providers");
}
