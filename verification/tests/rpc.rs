use rpc_gateway::gateway::rpc::{
    extract_rpc_method, find_method, is_consensus_critical_method, should_cache_hint,
};
use serde_json::Value;

#[test]
fn extracts_method_from_single_request() {
    let body = br#"{"jsonrpc":"2.0","id":1,"method":"getSlot","params":[]}"#;
    assert_eq!(extract_rpc_method(body).as_deref(), Some("getSlot"));
}

#[test]
fn extracts_method_from_batch() {
    let body = br#"[{"jsonrpc":"2.0","id":1,"method":"getBalance","params":["Fj9s..."]},{"jsonrpc":"2.0","id":2,"method":"getSlot","params":[]}]"#;
    assert_eq!(extract_rpc_method(body).as_deref(), Some("getBalance"));
}

#[test]
fn method_hint_detects_write_calls() {
    assert!(!should_cache_hint(Some("sendTransaction")));
    assert!(!should_cache_hint(Some("requestAirdrop")));
    assert!(should_cache_hint(Some("getBalance")));
    assert!(!should_cache_hint(None));
    assert!(is_consensus_critical_method(Some("getBalance")));
    assert!(!is_consensus_critical_method(Some("getSlot")));
}

#[test]
fn bodies_without_a_method_have_none() {
    assert_eq!(extract_rpc_method(b"not json"), None);
    assert_eq!(extract_rpc_method(br#"{"method":7}"#), None);
    assert_eq!(extract_rpc_method(br#"{"id":1}"#), None);
    assert_eq!(extract_rpc_method(br#""method""#), None);
    assert_eq!(extract_rpc_method(b"[]"), None);
    assert_eq!(extract_rpc_method(br#"{"method":"getSlot"} trailing"#), None);
}

#[test]
fn batch_skips_requests_without_a_method() {
    let body = br#"[1,{"id":1},{"method":null},{"method":"getBlock"},{"method":"getSlot"}]"#;
    assert_eq!(extract_rpc_method(body).as_deref(), Some("getBlock"));
}

#[test]
fn nested_batch_is_not_searched() {
    assert_eq!(extract_rpc_method(br#"[[{"method":"getSlot"}]]"#), None);
}

#[test]
fn finds_method_in_a_parsed_value() {
    let mut object = serde_json::Map::new();
    object.insert("method".to_string(), Value::String("getBlock".to_string()));
    let request = Value::Object(object);
    assert_eq!(find_method(&request).as_deref(), Some("getBlock"));
    let batch = Value::Array(vec![Value::Null, request]);
    assert_eq!(find_method(&batch).as_deref(), Some("getBlock"));
}
