use bytes::Bytes;
use rpc_gateway::gateway::reply::{
    error_summary, reply, reply_head, response_headers, ReplyBody,
};
use rpc_gateway::gateway::response::{DispatchError, GatewayResponse, ProviderFailure};

fn response() -> GatewayResponse {
    GatewayResponse {
        body: Bytes::from_static(b"{}"),
        provider: "provider-a".to_string(),
        attempts: 12,
        hedged: true,
        hedge_width: 3,
        cache_hit: false,
        cached_at_unix_ms: None,
        coalesced: true,
        consensus_critical: true,
        consensus_checked: true,
        consensus_validated: false,
        consensus_agreement: Some("2/3".to_string()),
    }
}

fn pairs(headers: &[(String, String)]) -> Vec<(&str, &str)> {
    headers.iter().map(|(name, value)| (name.as_str(), value.as_str())).collect()
}

#[test]
fn headers_tell_how_a_response_came_about() {
    let headers = response_headers(&response());
    assert_eq!(
        pairs(&headers),
        vec![
            ("content-type", "application/json"),
            ("x-rpc-provider", "provider-a"),
            ("x-rpc-attempts", "12"),
            ("x-rpc-hedged", "true"),
            ("x-rpc-hedge-width", "3"),
            ("x-rpc-cache", "MISS"),
            ("x-rpc-coalesced", "true"),
            ("x-rpc-consensus-critical", "true"),
            ("x-rpc-consensus-checked", "true"),
            ("x-rpc-consensus-validated", "false"),
            ("x-rpc-consensus-agreement", "2/3"),
        ]
    );
}

#[test]
fn headers_of_a_kept_response() {
    let kept = GatewayResponse {
        attempts: 0,
        hedged: false,
        hedge_width: 0,
        cache_hit: true,
        cached_at_unix_ms: Some(1_700_000_000_123),
        coalesced: false,
        consensus_checked: false,
        consensus_agreement: None,
        ..response()
    };
    let head = reply_head(&Ok(kept));
    assert_eq!(head.status, 200);
    let headers = pairs(&head.headers);
    assert!(headers.contains(&("x-rpc-cache", "HIT")));
    assert!(headers.contains(&("x-rpc-hedge-width", "0")));
    assert!(headers.contains(&("x-rpc-hedged", "false")));
    assert_eq!(headers.last(), Some(&("x-rpc-cache-timestamp", "1700000000123")));
}

#[test]
fn no_answer_is_a_bad_gateway() {
    let head = reply_head(&Err(DispatchError { failures: vec![] }));
    assert_eq!(head.status, 502);
    assert!(head.headers.is_empty());
    assert_eq!(error_summary(), "all providers failed");
}

#[test]
fn a_reply_carries_the_body_of_the_answer() {
    let answer = GatewayResponse {
        body: Bytes::from_static(br#"{"result":7}"#),
        ..response()
    };
    let reply = reply(Ok(answer));
    assert_eq!(reply.head.status, 200);
    assert!(pairs(&reply.head.headers).contains(&("x-rpc-provider", "provider-a")));
    let ReplyBody::Answer(body) = reply.body else {
        panic!("there is an answer");
    };
    assert_eq!(&body[..], br#"{"result":7}"#);
}

#[test]
fn a_reply_without_an_answer_lists_the_failures() {
    let failures = vec![ProviderFailure::new("a", "down"), ProviderFailure::new("b", "slow")];
    let reply = reply(Err(DispatchError { failures }));
    assert_eq!(reply.head.status, 502);
    assert!(reply.head.headers.is_empty());
    let ReplyBody::Failed { error, details } = reply.body else {
        panic!("there is no answer");
    };
    assert_eq!(error, "all providers failed");
    let details: Vec<(&str, &str)> =
        details.iter().map(|f| (f.provider.as_str(), f.error.as_str())).collect();
    assert_eq!(details, vec![("a", "down"), ("b", "slow")]);
}
