//! What a dispatched request comes to: a response, or the failures of providers.
use std::time::Duration;

use bytes::Bytes;

use vstd::prelude::*;
use vstd::string::*;

use super::headroom::RateLimitHeadroom;

verus! {

/// The answer to a request, and how it was obtained.
pub struct GatewayResponse {
    pub body: Bytes,
    pub provider: String,
    pub attempts: usize,
    pub hedged: bool,
    pub hedge_width: usize,
    pub cache_hit: bool,
    pub cached_at_unix_ms: Option<u128>,
    pub coalesced: bool,
    pub consensus_critical: bool,
    pub consensus_checked: bool,
    pub consensus_validated: bool,
    pub consensus_agreement: Option<String>,
}

/// Why a request has no answer: what went wrong at each provider, in order.
#[derive(Debug)]
pub struct DispatchError {
    pub failures: Vec<ProviderFailure>,
}

/// What went wrong at a provider, or on behalf of one.
#[derive(Debug)]
pub struct ProviderFailure {
    pub provider: String,
    pub error: String,
}

impl ProviderFailure {
    /// Whether the failure names this provider and says this.
    pub open spec fn says(&self, provider: Seq<char>, error: Seq<char>) -> bool {
        self.provider@ == provider && self.error@ == error
    }

    pub fn new(provider: &str, error: &str) -> (failure: ProviderFailure)
        ensures
            failure.says(provider@, error@),
    {
        ProviderFailure { provider: provider.to_string(), error: error.to_string() }
    }

    /// A failure whose words are put together from two parts.
    pub(crate) fn with_detail(provider: &str, start: &str, detail: &str) -> (failure: ProviderFailure)
        ensures
            failure.says(provider@, start@ + detail@),
    {
        let mut error: String = start.to_string();
        error.append(detail);
        ProviderFailure { provider: provider.to_string(), error }
    }
}

/// A provider's answer to a call.
pub struct CallSuccess {
    pub provider: String,
    pub body: Bytes,
    pub provider_index: usize,
    pub latency: Duration,
    pub rate_limit_headroom: Option<RateLimitHeadroom>,
}

/// What one of the calls made at once comes to.
pub enum CallArrival {
    /// The provider answered.
    Answered(CallSuccess),
    /// The provider failed.
    Failed(ProviderFailure),
    /// The call itself was lost, for this reason.
    Lost(String),
}

/// The answer that a race brought.
pub struct HedgedOutcome {
    pub success: CallSuccess,
    pub attempts: usize,
    pub hedged: bool,
    pub hedge_width: usize,
}

/// How a race ended that brought no answer.
pub struct LostRace {
    /// Whether calls were under way at the same time.
    pub raced: bool,
    /// What failed, in the order of arrival.
    pub failures: Vec<ProviderFailure>,
}

impl GatewayResponse {
    /// Whether the response passes on this body of this provider, obtained in
    /// this way and not yet classified in any other.
    pub open spec fn passes_on(
        &self,
        body: Bytes,
        provider: String,
        attempts: nat,
        hedged: bool,
        hedge_width: nat,
    ) -> bool {
        &&& self.body == body
        &&& self.provider == provider
        &&& self.attempts == attempts
        &&& self.hedged == hedged
        &&& self.hedge_width == hedge_width
        &&& !self.cache_hit
        &&& self.cached_at_unix_ms is None
        &&& !self.coalesced
        &&& !self.consensus_critical
    }

    /// Whether no vote was held on the response.
    pub open spec fn unvoted(&self) -> bool {
        &&& !self.consensus_checked
        &&& !self.consensus_validated
        &&& self.consensus_agreement is None
    }

    /// Whether a vote was held on the response, with this outcome.
    pub open spec fn voted(&self, validated: bool, agreement: Seq<char>) -> bool {
        &&& self.consensus_checked
        &&& self.consensus_validated == validated
        &&& self.consensus_agreement is Some
        &&& self.consensus_agreement->0@ == agreement
    }
}

/// Makes a response of a provider's answer.
pub fn build_gateway_response(
    success: CallSuccess,
    attempts: usize,
    hedged: bool,
    hedge_width: usize,
) -> (response: GatewayResponse)
    ensures
        response.passes_on(success.body, success.provider, attempts as nat, hedged, hedge_width as nat),
        response.unvoted(),
{
    GatewayResponse {
        body: success.body,
        provider: success.provider,
        attempts,
        hedged,
        hedge_width,
        cache_hit: false,
        cached_at_unix_ms: None,
        coalesced: false,
        consensus_critical: false,
        consensus_checked: false,
        consensus_validated: false,
        consensus_agreement: None,
    }
}

/// The failure of a request for which there is no provider.
pub fn no_providers() -> (error: DispatchError)
    ensures
        is_no_providers(error),
{
    let mut failures: Vec<ProviderFailure> = Vec::new();
    failures.push(ProviderFailure::new("gateway", "no providers configured"));
    DispatchError { failures }
}

/// Whether the error says that there is no provider.
pub open spec fn is_no_providers(error: DispatchError) -> bool {
    error.failures@.len() == 1 && error.failures@[0].says(
        "gateway"@,
        "no providers configured"@,
    )
}

impl Clone for ProviderFailure {
    fn clone(&self) -> (copy: ProviderFailure)
        ensures
            copy == *self,
    {
        ProviderFailure { provider: self.provider.clone(), error: self.error.clone() }
    }
}

impl Clone for DispatchError {
    fn clone(&self) -> (copy: DispatchError)
        ensures
            copy.failures@ == self.failures@,
    {
        let failures: Vec<ProviderFailure> = self.failures.clone();
        assert(failures@ =~= self.failures@);
        DispatchError { failures }
    }
}

impl Clone for GatewayResponse {
    fn clone(&self) -> (copy: GatewayResponse)
        ensures
            copy == *self,
    {
        GatewayResponse {
            body: self.body.clone(),
            provider: self.provider.clone(),
            attempts: self.attempts,
            hedged: self.hedged,
            hedge_width: self.hedge_width,
            cache_hit: self.cache_hit,
            cached_at_unix_ms: self.cached_at_unix_ms,
            coalesced: self.coalesced,
            consensus_critical: self.consensus_critical,
            consensus_checked: self.consensus_checked,
            consensus_validated: self.consensus_validated,
            consensus_agreement: match &self.consensus_agreement {
                Some(agreement) => Some(agreement.clone()),
                None => None,
            },
        }
    }
}

/// Whether a result is shared so with a request that joined, or was not shared:
/// it is the same but for the mark on a response.
pub open spec fn is_shared(
    result: Result<GatewayResponse, DispatchError>,
    joined: bool,
    shared: Result<GatewayResponse, DispatchError>,
) -> bool {
    match (result, shared) {
        (Ok(response), Ok(copy)) => copy == (GatewayResponse { coalesced: joined, ..response }),
        (Err(error), Err(copy)) => copy.failures@ == error.failures@,
        _ => false,
    }
}

/// Gives out the result of a request, to itself or to one that joined it.
pub fn share_result(result: &Result<GatewayResponse, DispatchError>, joined: bool) -> (shared: Result<
    GatewayResponse,
    DispatchError,
>)
    ensures
        is_shared(*result, joined, shared),
{
    match result {
        Ok(response) => {
            let mut copy: GatewayResponse = response.clone();
            copy.coalesced = joined;
            Ok(copy)
        },
        Err(error) => Err(error.clone()),
    }
}

/// A request that joined another one gets all of its response, marked as joined, and
/// all of its failures; the request itself gets the same, not so marked.
pub proof fn shared_results_are_the_same(
    result: Result<GatewayResponse, DispatchError>,
    joined: bool,
    shared: Result<GatewayResponse, DispatchError>,
)
    requires
        is_shared(result, joined, shared),
    ensures
        result is Ok <==> shared is Ok,
        result matches Err(error) ==> shared->Err_0.failures@ == error.failures@,
        result matches Ok(response) ==> {
            let copy = shared->Ok_0;
            &&& copy.coalesced == joined
            &&& copy.body == response.body
            &&& copy.provider == response.provider
            &&& copy.attempts == response.attempts
            &&& copy.hedged == response.hedged
            &&& copy.hedge_width == response.hedge_width
            &&& copy.cache_hit == response.cache_hit
            &&& copy.cached_at_unix_ms == response.cached_at_unix_ms
            &&& copy.consensus_critical == response.consensus_critical
            &&& copy.consensus_checked == response.consensus_checked
            &&& copy.consensus_validated == response.consensus_validated
            &&& copy.consensus_agreement == response.consensus_agreement
        },
{
}

/// A response that passes on an answer reports how it came about, and neither that
/// it was kept nor that it was shared.
pub proof fn responses_report_how_they_came_about(
    response: GatewayResponse,
    body: Bytes,
    provider: String,
    attempts: nat,
    hedged: bool,
    hedge_width: nat,
)
    requires
        response.passes_on(body, provider, attempts, hedged, hedge_width),
    ensures
        response.body == body && response.provider == provider,
        response.attempts == attempts,
        response.hedged == hedged && response.hedge_width == hedge_width,
        !response.cache_hit && response.cached_at_unix_ms is None && !response.coalesced,
        !response.consensus_critical,
        response.unvoted() ==> !response.consensus_checked && !response.consensus_validated
            && response.consensus_agreement is None,
        forall|validated: bool, agreement: Seq<char>| #[trigger]
            response.voted(validated, agreement) ==> response.consensus_checked
                && response.consensus_validated == validated && response.consensus_agreement is Some
                && response.consensus_agreement->0@ == agreement,
{
}

/// A failure says who failed and why, both at once; that there is no provider is one
/// failure, of the gateway itself.
pub proof fn failures_say_who_and_why(
    failure: ProviderFailure,
    provider: Seq<char>,
    error: Seq<char>,
    none: DispatchError,
)
    ensures
        failure.says(provider, error) <==> failure.provider@ == provider && failure.error@
            == error,
        is_no_providers(none) <==> none.failures@.len() == 1 && none.failures@[0].provider@
            == "gateway"@ && none.failures@[0].error@ == "no providers configured"@,
{
}

} // verus!
