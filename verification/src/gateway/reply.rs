//! What the gateway tells its client about a response.
use bytes::Bytes;

use vstd::prelude::*;

use super::response::{DispatchError, GatewayResponse, ProviderFailure};
use crate::text::{decimal, decimal_text};

verus! {

/// The status of a response that passes on an answer.
pub const STATUS_OK: u16 = 200;

/// The status of a response to a request without an answer.
pub const STATUS_BAD_GATEWAY: u16 = 502;

/// `true` or `false`.
pub open spec fn flag(value: bool) -> Seq<char> {
    if value {
        "true"@
    } else {
        "false"@
    }
}

/// The headers that go with every response.
pub open spec fn fixed_headers(response: GatewayResponse) -> Seq<(Seq<char>, Seq<char>)> {
    seq![
        ("content-type"@, "application/json"@),
        ("x-rpc-provider"@, response.provider@),
        ("x-rpc-attempts"@, decimal(response.attempts as nat)),
        ("x-rpc-hedged"@, flag(response.hedged)),
        ("x-rpc-hedge-width"@, decimal(response.hedge_width as nat)),
        (
            "x-rpc-cache"@,
            if response.cache_hit {
                "HIT"@
            } else {
                "MISS"@
            },
        ),
        ("x-rpc-coalesced"@, flag(response.coalesced)),
        ("x-rpc-consensus-critical"@, flag(response.consensus_critical)),
        ("x-rpc-consensus-checked"@, flag(response.consensus_checked)),
        ("x-rpc-consensus-validated"@, flag(response.consensus_validated)),
    ]
}

/// The header on how many providers agreed, where a vote was held.
pub open spec fn agreement_header(response: GatewayResponse) -> Seq<(Seq<char>, Seq<char>)> {
    match response.consensus_agreement {
        Some(agreement) => seq![("x-rpc-consensus-agreement"@, agreement@)],
        None => seq![],
    }
}

/// The header on since when a response has been kept, where it was kept.
pub open spec fn timestamp_header(response: GatewayResponse) -> Seq<(Seq<char>, Seq<char>)> {
    match response.cached_at_unix_ms {
        Some(millis) => seq![("x-rpc-cache-timestamp"@, decimal(millis as nat))],
        None => seq![],
    }
}

/// The headers that go with a response.
pub open spec fn reply_headers(response: GatewayResponse) -> Seq<(Seq<char>, Seq<char>)> {
    fixed_headers(response) + agreement_header(response) + timestamp_header(response)
}

/// The views of a list of headers.
pub open spec fn header_views(headers: Seq<(String, String)>) -> Seq<(Seq<char>, Seq<char>)> {
    headers.map_values(|header: (String, String)| (header.0@, header.1@))
}

fn flag_text(value: bool) -> (text: &'static str)
    ensures
        text@ == flag(value),
{
    if value {
        "true"
    } else {
        "false"
    }
}

fn push_header(headers: &mut Vec<(String, String)>, name: &str, value: &str)
    ensures
        header_views(final(headers)@) == header_views(old(headers)@).push((name@, value@)),
{
    headers.push((name.to_string(), value.to_string()));
    assert(header_views(headers@) =~= header_views(old(headers)@).push((name@, value@)));
}

/// Lists the headers that go with a response.
pub fn response_headers(response: &GatewayResponse) -> (headers: Vec<(String, String)>)
    ensures
        header_views(headers@) == reply_headers(*response),
{
    let mut headers: Vec<(String, String)> = Vec::new();
    assert(header_views(headers@) =~= seq![]);
    push_header(&mut headers, "content-type", "application/json");
    push_header(&mut headers, "x-rpc-provider", response.provider.as_str());
    push_header(
        &mut headers,
        "x-rpc-attempts",
        decimal_text(response.attempts as u128).as_str(),
    );
    push_header(&mut headers, "x-rpc-hedged", flag_text(response.hedged));
    push_header(
        &mut headers,
        "x-rpc-hedge-width",
        decimal_text(response.hedge_width as u128).as_str(),
    );
    push_header(
        &mut headers,
        "x-rpc-cache",
        if response.cache_hit {
            "HIT"
        } else {
            "MISS"
        },
    );
    push_header(&mut headers, "x-rpc-coalesced", flag_text(response.coalesced));
    push_header(
        &mut headers,
        "x-rpc-consensus-critical",
        flag_text(response.consensus_critical),
    );
    push_header(
        &mut headers,
        "x-rpc-consensus-checked",
        flag_text(response.consensus_checked),
    );
    push_header(
        &mut headers,
        "x-rpc-consensus-validated",
        flag_text(response.consensus_validated),
    );
    assert(header_views(headers@) =~= fixed_headers(*response));
    if let Some(agreement) = &response.consensus_agreement {
        push_header(&mut headers, "x-rpc-consensus-agreement", agreement.as_str());
    }
    assert(header_views(headers@) =~= fixed_headers(*response) + agreement_header(*response));
    if let Some(millis) = response.cached_at_unix_ms {
        push_header(&mut headers, "x-rpc-cache-timestamp", decimal_text(millis).as_str());
    }
    assert(header_views(headers@) =~= reply_headers(*response));
    headers
}

/// The status and the headers with which a client is answered.
pub struct ReplyHead {
    pub status: u16,
    pub headers: Vec<(String, String)>,
}

impl ReplyHead {
    /// Whether a request with this result is answered so: with the headers that go
    /// with a response, or with a bad gateway where there is none.
    pub open spec fn answers(&self, result: Result<GatewayResponse, DispatchError>) -> bool {
        match result {
            Ok(response) => {
                &&& self.status == STATUS_OK
                &&& header_views(self.headers@) == reply_headers(response)
            },
            Err(_) => self.status == STATUS_BAD_GATEWAY && self.headers@.len() == 0,
        }
    }
}

/// Decides on the status and the headers with which a client is answered.
pub fn reply_head(result: &Result<GatewayResponse, DispatchError>) -> (head: ReplyHead)
    ensures
        head.answers(*result),
{
    match result {
        Ok(response) => ReplyHead { status: STATUS_OK, headers: response_headers(response) },
        Err(_) => ReplyHead { status: STATUS_BAD_GATEWAY, headers: Vec::new() },
    }
}

/// What is said of a request without an answer.
pub fn error_summary() -> (summary: String)
    ensures
        summary@ == "all providers failed"@,
{
    "all providers failed".to_string()
}

/// What a client is sent.
pub enum ReplyBody {
    /// The answer of a provider, as it is.
    Answer(Bytes),
    /// What is said of a request without an answer, and what failed at each
    /// provider, in order.
    Failed { error: String, details: Vec<ProviderFailure> },
}

/// A reply to a client.
pub struct Reply {
    pub head: ReplyHead,
    pub body: ReplyBody,
}

/// Answers a client: passes on the body of a response, with its headers, or lists
/// the failures where there is none.
pub fn reply(result: Result<GatewayResponse, DispatchError>) -> (reply: Reply)
    ensures
        reply.head.answers(result),
        (match result {
            Ok(response) => reply.body == ReplyBody::Answer(response.body),
            Err(failed) => {
                &&& reply.body matches ReplyBody::Failed { error, details }
                &&& error@ == "all providers failed"@
                &&& details == failed.failures
            },
        }),
{
    let head: ReplyHead = reply_head(&result);
    let body: ReplyBody = match result {
        Ok(response) => ReplyBody::Answer(response.body),
        Err(failed) => ReplyBody::Failed { error: error_summary(), details: failed.failures },
    };
    Reply { head, body }
}

/// The value of a header among others of different names.
pub open spec fn has_header(
    headers: Seq<(Seq<char>, Seq<char>)>,
    name: Seq<char>,
    value: Seq<char>,
) -> bool {
    headers.contains((name, value))
}

/// A client that gets an answer is told where it comes from and how it came about,
/// header by header; without an answer the gateway is bad.
pub proof fn clients_are_told_how_answers_came_about(
    head: ReplyHead,
    result: Result<GatewayResponse, DispatchError>,
)
    requires
        head.answers(result),
    ensures
        result is Err ==> head.status == 502 && head.headers@.len() == 0,
        result matches Ok(response) ==> {
            let headers = header_views(head.headers@);
            &&& head.status == 200
            &&& has_header(headers, "content-type"@, "application/json"@)
            &&& has_header(headers, "x-rpc-provider"@, response.provider@)
            &&& has_header(headers, "x-rpc-attempts"@, decimal(response.attempts as nat))
            &&& has_header(headers, "x-rpc-hedged"@, if response.hedged { "true"@ } else { "false"@ })
            &&& has_header(headers, "x-rpc-hedge-width"@, decimal(response.hedge_width as nat))
            &&& has_header(headers, "x-rpc-cache"@, if response.cache_hit { "HIT"@ } else { "MISS"@ })
            &&& has_header(
                headers,
                "x-rpc-coalesced"@,
                if response.coalesced { "true"@ } else { "false"@ },
            )
            &&& has_header(
                headers,
                "x-rpc-consensus-critical"@,
                if response.consensus_critical { "true"@ } else { "false"@ },
            )
            &&& has_header(
                headers,
                "x-rpc-consensus-checked"@,
                if response.consensus_checked { "true"@ } else { "false"@ },
            )
            &&& has_header(
                headers,
                "x-rpc-consensus-validated"@,
                if response.consensus_validated { "true"@ } else { "false"@ },
            )
            &&& response.consensus_agreement matches Some(agreement) ==> has_header(
                headers,
                "x-rpc-consensus-agreement"@,
                agreement@,
            )
            &&& response.cached_at_unix_ms matches Some(millis) ==> has_header(
                headers,
                "x-rpc-cache-timestamp"@,
                decimal(millis as nat),
            )
            &&& headers.len() == 10 + (if response.consensus_agreement is Some {
                1int
            } else {
                0
            }) + (if response.cached_at_unix_ms is Some {
                1int
            } else {
                0
            })
        },
{
    if let Ok(response) = result {
        let headers = header_views(head.headers@);
        let fixed = fixed_headers(response);
        assert(fixed.len() == 10);
        assert forall|i: int| 0 <= i < 10 implies headers.contains(#[trigger] fixed[i]) by {
            assert(headers[i] == fixed[i]);
        }
        assert(headers.contains(fixed[0]) && headers.contains(fixed[1]) && headers.contains(
            fixed[2],
        ) && headers.contains(fixed[3]) && headers.contains(fixed[4]) && headers.contains(fixed[5])
            && headers.contains(fixed[6]) && headers.contains(fixed[7]) && headers.contains(
            fixed[8],
        ) && headers.contains(fixed[9]));
        if response.consensus_agreement is Some {
            assert(headers[10] == agreement_header(response)[0]);
        }
        if response.cached_at_unix_ms is Some {
            assert(headers.last() == timestamp_header(response)[0]);
        }
    }
}

} // verus!
