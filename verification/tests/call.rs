use std::time::Duration;

use bytes::Bytes;
use rpc_gateway::gateway::call::{
    judge_call, judge_probe, status_failure, CallOutcome, ProbeOutcome, ProbeVerdict,
};
use rpc_gateway::gateway::response::{CallSuccess, ProviderFailure};

fn judge(outcome: CallOutcome) -> Result<CallSuccess, ProviderFailure> {
    judge_call("p", 3, Duration::from_millis(1_500), outcome)
}

fn answered(status: u16, body: &str) -> CallOutcome {
    CallOutcome::Answered {
        status,
        headers: vec![
            ("x-ratelimit-remaining".to_string(), "1".to_string()),
            ("x-ratelimit-limit".to_string(), "4".to_string()),
        ],
        body: Bytes::from(body.to_string()),
        latency: Duration::from_millis(25),
    }
}

fn error(outcome: CallOutcome) -> String {
    let failure = judge(outcome).err().expect("a failure");
    assert_eq!(failure.provider, "p");
    failure.error
}

#[test]
fn success_is_any_status_of_its_class() {
    for status in [200, 204, 299] {
        let success = judge(answered(status, "{}")).ok().expect("a success");
        assert_eq!(success.provider, "p");
        assert_eq!(success.provider_index, 3);
        assert_eq!(&success.body[..], b"{}");
        assert_eq!(success.latency, Duration::from_millis(25));
        let headroom = success.rate_limit_headroom.expect("is in the headers");
        assert_eq!((headroom.remaining(), headroom.limit()), (1, 4));
    }
}

#[test]
fn other_statuses_are_failures() {
    assert_eq!(error(answered(199, "x")), "upstream status 199: x");
    assert_eq!(error(answered(300, "")), "upstream status 300: ");
    assert_eq!(error(answered(500, "boom")), "upstream status 500: boom");
}

#[test]
fn long_bodies_are_cut_in_failures() {
    let expected = format!("upstream status 502: {}...", "y".repeat(200));
    assert_eq!(error(answered(502, &"y".repeat(201))), expected);
    let expected = format!("upstream status 502: {}", "y".repeat(200));
    assert_eq!(error(answered(502, &"y".repeat(200))), expected);
}

#[test]
fn failures_say_what_went_wrong() {
    assert_eq!(error(CallOutcome::SendFailed("refused".to_string())), "request error: refused");
    assert_eq!(error(CallOutcome::TimedOut), "request timed out after 1500 ms");
    assert_eq!(
        error(CallOutcome::BodyFailed("reset".to_string())),
        "failed to read response body: reset"
    );
    let failure = status_failure("q", 429, "slow down");
    assert_eq!(failure.provider, "q");
    assert_eq!(failure.error, "upstream status 429: slow down");
}

#[test]
fn probes_are_judged_by_status() {
    let answered = |status, body: String| ProbeOutcome::Answered {
        status,
        headers: vec![],
        body: Bytes::from(body),
    };
    assert!(matches!(judge_probe(&answered(204, String::new())), ProbeVerdict::Healthy));
    assert!(matches!(judge_probe(&ProbeOutcome::SendFailed), ProbeVerdict::SendFailed));
    assert!(matches!(judge_probe(&ProbeOutcome::TimedOut), ProbeVerdict::TimedOut));
    let ProbeVerdict::Rejected { status, excerpt } = judge_probe(&answered(503, "z".repeat(161)))
    else {
        panic!("the provider is not healthy");
    };
    assert_eq!(status, 503);
    assert_eq!(excerpt, format!("{}...", "z".repeat(160)));
}
