//! What a call of a provider comes to.
use std::time::Duration;

use bytes::Bytes;

use vstd::prelude::*;
use vstd::string::*;

use super::headroom::{is_headroom, parse_rate_limit_headroom};
use super::response::{CallSuccess, ProviderFailure};
use crate::payload::{as_slice, bytes_contents};
use crate::text::{decimal, decimal_text, lossy_text, truncate_text_lossy, truncated};
use crate::time::duration_millis;

verus! {

/// How a call ended.
pub enum CallOutcome {
    /// The request could not be sent, for this reason.
    SendFailed(String),
    /// There was no response in time.
    TimedOut,
    /// There was a response, but its body could not be read, for this reason.
    BodyFailed(String),
    /// There was a response, this long after the request.
    Answered { status: u16, headers: Vec<(String, String)>, body: Bytes, latency: Duration },
}

/// Whether a status stands for success.
pub open spec fn is_success(status: u16) -> bool {
    200 <= status <= 299
}

/// Whether a call that ended so succeeded.
pub open spec fn succeeded(outcome: CallOutcome) -> bool {
    match outcome {
        CallOutcome::Answered { status, .. } => is_success(status),
        _ => false,
    }
}

/// What is said of a response with another status: the status and the beginning
/// of the body.
pub open spec fn status_error(status: u16, excerpt: Seq<char>) -> Seq<char> {
    "upstream status "@ + decimal(status as nat) + ": "@ + excerpt
}

/// What is said of a call that failed.
pub open spec fn call_error(outcome: CallOutcome, timeout_ms: nat) -> Seq<char> {
    match outcome {
        CallOutcome::SendFailed(reason) => "request error: "@ + reason@,
        CallOutcome::TimedOut => "request timed out after "@ + decimal(timeout_ms)
            + " ms"@,
        CallOutcome::BodyFailed(reason) => "failed to read response body: "@ + reason@,
        CallOutcome::Answered { status, body, .. } => status_error(
            status,
            truncated(lossy_text(bytes_contents(body)), 200),
        ),
    }
}

/// Whether a call that ended so comes to this result: any status that does not
/// stand for success is a failure.
pub open spec fn is_call_result(
    provider: Seq<char>,
    provider_index: usize,
    timeout_ms: nat,
    outcome: CallOutcome,
    result: Result<CallSuccess, ProviderFailure>,
) -> bool {
    match result {
        Ok(success) => {
            &&& succeeded(outcome)
            &&& success.provider@ == provider
            &&& success.provider_index == provider_index
            &&& outcome matches CallOutcome::Answered { headers, body, latency, .. }
                && success.body == body && success.latency == latency && is_headroom(
                headers@,
                success.rate_limit_headroom,
            )
        },
        Err(failure) => {
            &&& !succeeded(outcome)
            &&& failure.says(provider, call_error(outcome, timeout_ms))
        },
    }
}

/// Words the failure of a call that was answered with another status.
pub fn status_failure(provider: &str, status: u16, excerpt: &str) -> (failure: ProviderFailure)
    ensures
        failure.says(provider@, status_error(status, excerpt@)),
{
    let mut error: String = "upstream status ".to_string();
    error.append(decimal_text(status as u128).as_str());
    error.append(": ");
    error.append(excerpt);
    ProviderFailure { provider: provider.to_string(), error }
}

/// Judges a call by how it ended.
pub fn judge_call(
    provider: &str,
    provider_index: usize,
    timeout: Duration,
    outcome: CallOutcome,
) -> (result: Result<CallSuccess, ProviderFailure>)
    ensures
        is_call_result(
            provider@,
            provider_index,
            duration_millis(timeout),
            outcome,
            result,
        ),
{
    match outcome {
        CallOutcome::SendFailed(reason) => Err(
            ProviderFailure::with_detail(provider, "request error: ", reason.as_str()),
        ),
        CallOutcome::TimedOut => {
            let mut error: String = "request timed out after ".to_string();
            error.append(decimal_text(timeout.as_millis()).as_str());
            error.append(" ms");
            Err(ProviderFailure { provider: provider.to_string(), error })
        },
        CallOutcome::BodyFailed(reason) => Err(
            ProviderFailure::with_detail(
                provider,
                "failed to read response body: ",
                reason.as_str(),
            ),
        ),
        CallOutcome::Answered { status, headers, body, latency } => {
            if status >= 200 && status <= 299 {
                let rate_limit_headroom = parse_rate_limit_headroom(&headers);
                Ok(
                    CallSuccess {
                        provider: provider.to_string(),
                        body,
                        provider_index,
                        latency,
                        rate_limit_headroom,
                    },
                )
            } else {
                let excerpt: String = truncate_text_lossy(as_slice(&body), 200);
                Err(status_failure(provider, status, excerpt.as_str()))
            }
        },
    }
}

/// How a probe ended.
pub enum ProbeOutcome {
    /// The probe could not be sent.
    SendFailed,
    /// There was no response in time.
    TimedOut,
    /// There was a response; the body is empty where it could not be read.
    Answered { status: u16, headers: Vec<(String, String)>, body: Bytes },
}

/// What a probe says of a provider.
pub enum ProbeVerdict {
    Healthy,
    SendFailed,
    TimedOut,
    /// The provider answered with this status and a body that begins so.
    Rejected { status: u16, excerpt: String },
}

/// Whether a probe that ended so found the provider healthy.
pub open spec fn probe_succeeded(outcome: ProbeOutcome) -> bool {
    match outcome {
        ProbeOutcome::Answered { status, .. } => is_success(status),
        _ => false,
    }
}

/// Whether a probe that ended so says this.
pub open spec fn is_probe_verdict(outcome: ProbeOutcome, verdict: ProbeVerdict) -> bool {
    match verdict {
        ProbeVerdict::Healthy => probe_succeeded(outcome),
        ProbeVerdict::SendFailed => outcome is SendFailed,
        ProbeVerdict::TimedOut => outcome is TimedOut,
        ProbeVerdict::Rejected { status, excerpt } => {
            &&& !probe_succeeded(outcome)
            &&& outcome is Answered
            &&& status == outcome->status
            &&& excerpt@ == truncated(lossy_text(bytes_contents(outcome->body)), 160)
        },
    }
}

/// Judges a probe by how it ended.
pub fn judge_probe(outcome: &ProbeOutcome) -> (verdict: ProbeVerdict)
    ensures
        is_probe_verdict(*outcome, verdict),
{
    match outcome {
        ProbeOutcome::SendFailed => ProbeVerdict::SendFailed,
        ProbeOutcome::TimedOut => ProbeVerdict::TimedOut,
        ProbeOutcome::Answered { status, headers: _, body } => {
            if *status >= 200 && *status <= 299 {
                ProbeVerdict::Healthy
            } else {
                ProbeVerdict::Rejected {
                    status: *status,
                    excerpt: truncate_text_lossy(as_slice(body), 160),
                }
            }
        },
    }
}

/// A response with a status from 200 to 299 is a success, which passes on the body
/// as it came and how long it took; with any other status it is a failure.
pub proof fn status_decides_on_success(
    provider: Seq<char>,
    provider_index: usize,
    timeout_ms: nat,
    status: u16,
    headers: Vec<(String, String)>,
    body: Bytes,
    latency: Duration,
    result: Result<CallSuccess, ProviderFailure>,
)
    requires
        is_call_result(
            provider,
            provider_index,
            timeout_ms,
            CallOutcome::Answered { status, headers, body, latency },
            result,
        ),
    ensures
        result is Ok <==> 200 <= status < 300,
        result matches Ok(success) ==> success.body == body && success.latency == latency
            && success.provider@ == provider && success.provider_index == provider_index
            && is_headroom(headers@, success.rate_limit_headroom),
        result matches Err(failure) ==> failure.provider@ == provider && failure.error@
            == "upstream status "@ + decimal(status as nat) + ": "@ + truncated(
            lossy_text(bytes_contents(body)),
            200,
        ),
{
}

/// A call that could not be sent, was not answered in time or whose response could
/// not be read failed, and the failure says which.
pub proof fn calls_without_response_fail(
    provider: Seq<char>,
    provider_index: usize,
    timeout_ms: nat,
    outcome: CallOutcome,
    result: Result<CallSuccess, ProviderFailure>,
)
    requires
        outcome !is Answered,
        is_call_result(provider, provider_index, timeout_ms, outcome, result),
    ensures
        result is Err,
        result->Err_0.provider@ == provider,
        outcome matches CallOutcome::SendFailed(reason) ==> result->Err_0.error@
            == "request error: "@ + reason@,
        outcome is TimedOut ==> result->Err_0.error@ == "request timed out after "@ + decimal(
            timeout_ms,
        ) + " ms"@,
        outcome matches CallOutcome::BodyFailed(reason) ==> result->Err_0.error@
            == "failed to read response body: "@ + reason@,
{
}

/// A probe finds a provider healthy exactly if it is answered with a status from 200
/// to 299; else its verdict says what went wrong, with the first 160 characters of
/// an answer.
pub proof fn probes_tell_health(outcome: ProbeOutcome, verdict: ProbeVerdict)
    requires
        is_probe_verdict(outcome, verdict),
    ensures
        verdict is Healthy <==> (outcome matches ProbeOutcome::Answered { status, .. } && 200
            <= status < 300),
        verdict is SendFailed <==> outcome is SendFailed,
        verdict is TimedOut <==> outcome is TimedOut,
        verdict matches ProbeVerdict::Rejected { status, excerpt } ==> outcome
            matches ProbeOutcome::Answered { status: got, body, .. } && status == got && (got < 200
            || got >= 300) && excerpt@ == truncated(lossy_text(bytes_contents(body)), 160),
{
}

} // verus!
