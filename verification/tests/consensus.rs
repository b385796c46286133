use std::time::Duration;

use bytes::Bytes;
use rpc_gateway::gateway::consensus::{
    consensus_fingerprint, decide_by_fingerprints, decide_consensus, ConsensusCandidate,
};
use rpc_gateway::gateway::response::{CallArrival, CallSuccess, ProviderFailure};
use rpc_gateway::gateway::validation::{
    conclude_by_fingerprints, conclude_validation, plan_validation, ValidationPlan,
    ValidationRound,
};
use rpc_gateway::settings::ConsensusValidationConfig;

fn candidate(provider: &str, body: &str, latency_ms: u64) -> ConsensusCandidate {
    ConsensusCandidate {
        provider: provider.to_string(),
        body: Bytes::from(body.to_string()),
        provider_index: 0,
        latency: Duration::from_millis(latency_ms),
    }
}

fn answer(provider: &str, body: &str, latency_ms: u64) -> CallArrival {
    CallArrival::Answered(CallSuccess {
        provider: provider.to_string(),
        body: Bytes::from(body.to_string()),
        provider_index: 0,
        latency: Duration::from_millis(latency_ms),
        rate_limit_headroom: None,
    })
}

fn prints(texts: &[Option<&str>]) -> Vec<Option<String>> {
    texts.iter().map(|text| text.map(|t| t.to_string())).collect()
}

fn fingerprint(method: &str, body: &str) -> Option<String> {
    consensus_fingerprint(Some(method), body.as_bytes())
}

#[test]
fn balances_agree_even_with_different_context_slot() {
    let decision = decide_consensus(
        Some("getBalance"),
        vec![
            candidate(
                "a",
                r#"{"jsonrpc":"2.0","id":1,"result":{"context":{"slot":99},"value":500}}"#,
                20,
            ),
            candidate(
                "b",
                r#"{"jsonrpc":"2.0","id":1,"result":{"context":{"slot":100},"value":500}}"#,
                10,
            ),
            candidate(
                "c",
                r#"{"jsonrpc":"2.0","id":1,"result":{"context":{"slot":100},"value":777}}"#,
                5,
            ),
        ],
    )
    .expect("consensus should produce decision");

    assert!(decision.majority);
    assert_eq!(decision.agreement, 2);
    assert_eq!(decision.participants, 3);
    assert_eq!(decision.winner.provider, "b");
}

#[test]
fn no_majority_detected_when_all_results_differ() {
    let decision = decide_consensus(
        Some("getBalance"),
        vec![
            candidate(
                "a",
                r#"{"jsonrpc":"2.0","id":1,"result":{"context":{"slot":99},"value":1}}"#,
                20,
            ),
            candidate(
                "b",
                r#"{"jsonrpc":"2.0","id":1,"result":{"context":{"slot":100},"value":2}}"#,
                10,
            ),
            candidate(
                "c",
                r#"{"jsonrpc":"2.0","id":1,"result":{"context":{"slot":101},"value":3}}"#,
                5,
            ),
        ],
    )
    .expect("decision should still be produced");

    assert!(!decision.majority);
    assert_eq!(decision.agreement, 1);
}

#[test]
fn fingerprints_go_by_the_method() {
    let body = r#"{"result":{"value":{"amount":"7","blockhash":"h","b":1,"a":2},"blockhash":"g"}}"#;
    assert_eq!(fingerprint("getTokenAccountBalance", body).as_deref(), Some("\"7\""));
    assert_eq!(fingerprint("GETLATESTBLOCKHASH", body).as_deref(), Some("\"h\""));
    assert_eq!(fingerprint("getBlock", body).as_deref(), Some("\"g\""));
    let value = r#"{"a":2,"amount":"7","b":1,"blockhash":"h"}"#;
    assert_eq!(fingerprint("getBalance", body).as_deref(), Some(value));
    assert_eq!(fingerprint("isBlockhashValid", body).as_deref(), Some(value));
    let result = format!(r#"{{"blockhash":"g","value":{value}}}"#);
    assert_eq!(fingerprint("getSlot", body).as_deref(), Some(result.as_str()));
    assert_eq!(consensus_fingerprint(None, body.as_bytes()).as_deref(), Some(result.as_str()));
}

#[test]
fn fingerprints_fall_back_in_order() {
    let value = r#"{"result":{"value":5}}"#;
    assert_eq!(fingerprint("getTokenAccountBalance", value).as_deref(), Some("5"));
    assert_eq!(fingerprint("getLatestBlockhash", value).as_deref(), Some(r#"{"value":5}"#));
    let bare = r#"{"result":3,"error":4}"#;
    for method in
        ["getBalance", "getTokenAccountBalance", "getLatestBlockhash", "getBlock", "getSlot"]
    {
        assert_eq!(fingerprint(method, bare).as_deref(), Some("3"));
    }
    let error = r#"{"error":{"code":-32000}}"#;
    assert_eq!(fingerprint("getBalance", error).as_deref(), Some(r#"{"code":-32000}"#));
    assert_eq!(fingerprint("getBalance", r#"{"result":{"value":null}}"#).as_deref(), Some("null"));
    assert_eq!(fingerprint("getBalance", r#"{"result":[{"value":1}]}"#).as_deref(), Some(r#"[{"value":1}]"#));
    assert_eq!(fingerprint("getBalance", "{}"), None);
    assert_eq!(fingerprint("getBalance", "nonsense"), None);
}

#[test]
fn nobody_is_elected_without_candidates() {
    assert!(decide_consensus(Some("getBalance"), vec![]).is_none());
}

#[test]
fn one_unreadable_answer_spoils_the_vote() {
    let decision = decide_consensus(
        Some("getBalance"),
        vec![candidate("a", r#"{"result":1}"#, 1), candidate("b", "oops", 2)],
    );
    assert!(decision.is_none());
}

#[test]
fn fastest_of_the_majority_wins_and_first_on_ties() {
    let prints = prints(&[Some("x"), Some("y"), Some("x"), Some("x")]);
    let decision = decide_by_fingerprints(
        &prints,
        vec![
            candidate("a", "", 9),
            candidate("b", "", 1),
            candidate("c", "", 4),
            candidate("d", "", 4),
        ],
    )
    .expect("there are candidates");
    assert_eq!(decision.winner.provider, "c");
    assert_eq!(decision.agreement, 3);
    assert_eq!(decision.participants, 4);
    assert!(decision.majority);
}

#[test]
fn half_is_no_majority() {
    let prints = prints(&[Some("x"), Some("y")]);
    let decision =
        decide_by_fingerprints(&prints, vec![candidate("a", "", 2), candidate("b", "", 1)])
            .expect("there are candidates");
    assert!(!decision.majority);
    assert_eq!(decision.agreement, 1);
}

fn config(sample_size: usize) -> ConsensusValidationConfig {
    ConsensusValidationConfig {
        enabled: true,
        sample_size,
        fail_open: false,
    }
}

#[test]
fn validation_asks_the_first_few() {
    assert!(matches!(
        plan_validation(&config(3), &vec![4, 2, 7, 1]),
        ValidationPlan::Ask(sample) if sample == vec![4, 2, 7]
    ));
    assert!(matches!(
        plan_validation(&config(0), &vec![4, 2, 7, 1]),
        ValidationPlan::Ask(sample) if sample == vec![4, 2]
    ));
    assert!(matches!(
        plan_validation(&config(50), &vec![4, 2]),
        ValidationPlan::Ask(sample) if sample == vec![4, 2]
    ));
    assert!(matches!(plan_validation(&config(3), &vec![4]), ValidationPlan::Unvalidated));
    let ValidationPlan::Unserved(error) = plan_validation(&config(3), &vec![]) else {
        panic!("there is nobody to ask");
    };
    assert_eq!(error.failures.len(), 1);
    assert_eq!(error.failures[0].provider, "gateway");
    assert_eq!(error.failures[0].error, "no providers configured");
}

fn round(arrivals: Vec<CallArrival>) -> ValidationRound {
    let mut round = ValidationRound::new(3);
    for arrival in arrivals {
        round.record(arrival);
    }
    round
}

#[test]
fn too_few_answers_fail_or_pass_unvalidated() {
    let arrivals = || {
        vec![
            CallArrival::Failed(ProviderFailure::new("a", "down")),
            answer("b", r#"{"result":1}"#, 5),
            CallArrival::Lost("cancelled".to_string()),
        ]
    };
    let error = conclude_validation(false, Some("getBalance"), round(arrivals()))
        .err()
        .expect("one answer is not enough");
    let texts: Vec<&str> = error.failures.iter().map(|f| f.error.as_str()).collect();
    assert_eq!(
        texts,
        vec![
            "down",
            "consensus task join error: cancelled",
            "consensus validation requires at least 2 successful providers; got 1",
        ]
    );
    assert_eq!(error.failures[1].provider, "gateway");
    assert_eq!(error.failures[2].provider, "consensus");

    let response = conclude_validation(true, Some("getBalance"), round(arrivals()))
        .ok()
        .expect("failing open passes the only answer on");
    assert_eq!(response.provider, "b");
    assert_eq!(response.attempts, 3);
    assert!(response.consensus_checked);
    assert!(!response.consensus_validated);
    assert_eq!(response.consensus_agreement.as_deref(), Some("1/3"));

    let error = conclude_validation(true, None, round(vec![])).err().expect("no answer at all");
    assert_eq!(
        error.failures[0].error,
        "consensus validation requires at least 2 successful providers; got 0"
    );
}

#[test]
fn disagreement_fails_or_passes_unvalidated() {
    let arrivals = || vec![answer("a", r#"{"result":1}"#, 5), answer("b", r#"{"result":2}"#, 3)];
    let error = conclude_validation(false, Some("getSlot"), round(arrivals()))
        .err()
        .expect("there is no majority");
    assert_eq!(error.failures[0].error, "no majority agreement for getSlot (1/2)");
    let error = conclude_validation(false, None, round(arrivals()))
        .err()
        .expect("there is no majority");
    assert_eq!(error.failures[0].error, "no majority agreement for unknown (1/2)");

    let response = conclude_validation(true, Some("getSlot"), round(arrivals()))
        .ok()
        .expect("failing open passes some answer on");
    assert!(response.consensus_checked);
    assert!(!response.consensus_validated);
    assert_eq!(response.consensus_agreement.as_deref(), Some("1/2"));
}

#[test]
fn agreement_is_passed_on_validated() {
    let response = conclude_validation(
        false,
        Some("getSlot"),
        round(vec![answer("a", r#"{"result":1}"#, 5), answer("b", r#"{"id":2,"result":1}"#, 3)]),
    )
    .ok()
    .expect("both agree");
    assert_eq!(response.provider, "b");
    assert!(response.consensus_validated);
    assert!(!response.hedged);
    assert_eq!(response.hedge_width, 1);
    assert_eq!(response.consensus_agreement.as_deref(), Some("2/2"));
}

#[test]
fn unreadable_answers_fail_in_strict_mode() {
    let arrivals = vec![
        answer("a", "oops", 5),
        answer("b", r#"{"result":1}"#, 3),
        answer("c", r#"{"result":1}"#, 4),
    ];
    let error = conclude_validation(false, Some("getSlot"), round(arrivals))
        .err()
        .expect("an answer cannot be compared");
    assert_eq!(
        error.failures[0].error,
        "failed to parse JSON-RPC payloads for consensus voting"
    );
    assert_eq!(error.failures[0].provider, "consensus");
}

#[test]
fn unreadable_answers_do_not_vote_when_failing_open() {
    let arrivals = vec![answer("a", "oops", 1), answer("b", r#"{"result":1}"#, 3)];
    let response = conclude_validation(true, Some("getSlot"), round(arrivals))
        .ok()
        .expect("failing open passes the best answer on");
    assert_eq!(response.provider, "b");
    assert!(response.consensus_checked);
    assert!(!response.consensus_validated);
    assert_eq!(response.consensus_agreement.as_deref(), Some("1/2"));

    let arrivals = vec![
        answer("a", "oops", 1),
        answer("b", r#"{"result":1}"#, 5),
        answer("c", r#"{"result":1}"#, 3),
    ];
    let response = conclude_validation(true, Some("getSlot"), round(arrivals))
        .ok()
        .expect("two of three agree");
    assert_eq!(response.provider, "c");
    assert!(response.consensus_validated);
    assert_eq!(response.consensus_agreement.as_deref(), Some("2/3"));
}

#[test]
fn answers_that_are_all_unreadable_pass_unvalidated_when_failing_open() {
    let arrivals = vec![answer("a", "oops", 5), answer("b", "oops", 3), answer("c", "{}", 4)];
    let response = conclude_validation(true, Some("getSlot"), round(arrivals))
        .ok()
        .expect("failing open passes some answer on");
    assert_eq!(response.provider, "b");
    assert!(response.consensus_checked);
    assert!(!response.consensus_validated);
    assert_eq!(response.consensus_agreement.as_deref(), Some("0/3"));
}

#[test]
fn vote_by_given_fingerprints() {
    let arrivals = vec![answer("a", "1", 5), answer("b", "2", 3), answer("c", "3", 1)];
    let prints = prints(&[Some("x"), Some("x"), Some("y")]);
    let response = conclude_by_fingerprints(false, Some("m"), round(arrivals), prints)
        .ok()
        .expect("two of three agree");
    assert_eq!(response.provider, "b");
    assert_eq!(response.consensus_agreement.as_deref(), Some("2/3"));
}
