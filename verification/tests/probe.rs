use rpc_gateway::gateway::probe::{build_block_lag_payload, build_probe_payload, PayloadError};
use rpc_gateway::settings::{PredictiveScoringConfig, ProbeConfig};
use serde_json::Value;

#[test]
fn builds_probe_payload_with_method_and_params() {
    let probe = ProbeConfig {
        enabled: true,
        interval_secs: 10,
        timeout_ms: 800,
        method: "getHealth".to_string(),
        params: Value::Array(vec![]),
    };

    let payload = build_probe_payload(&probe).expect("probe payload should serialize");
    let value: Value =
        serde_json::from_slice(&payload).expect("probe payload should be valid JSON");

    assert_eq!(value.get("method").and_then(Value::as_str), Some("getHealth"));
    assert_eq!(value.get("params"), Some(&Value::Array(vec![])));
}

#[test]
fn probe_payload_is_a_json_rpc_request() {
    let payload = build_probe_payload(&ProbeConfig::default()).expect("serializes");
    assert_eq!(
        &payload[..],
        br#"{"id":"rpc-gateway-probe","jsonrpc":"2.0","method":"getHealth","params":[]}"#
    );
}

#[test]
fn block_lag_payload_is_a_json_rpc_request() {
    let payload =
        build_block_lag_payload(&PredictiveScoringConfig::default()).expect("serializes");
    assert_eq!(
        &payload[..],
        br#"{"id":"rpc-gateway-block-lag-probe","jsonrpc":"2.0","method":"getSlot","params":[]}"#
    );
}

#[test]
fn payload_errors_have_their_context() {
    assert_eq!(
        PayloadError::Probe.context().as_deref(),
        Some("failed to serialize probe payload")
    );
    assert_eq!(PayloadError::BlockLagProbe.context(), None);
}

#[test]
fn parameters_under_the_reserved_key_are_written_as_they_are() {
    let member = ("$serde_json::private::RawValue".to_string(), Value::String("1".to_string()));
    let probe = ProbeConfig {
        params: Value::Object([member].into_iter().collect()),
        ..ProbeConfig::default()
    };
    let payload = build_probe_payload(&probe).expect("serializes");
    let params = br#""params":{"$serde_json::private::RawValue":"1"}}"#;
    assert!(payload.ends_with(params));
}
