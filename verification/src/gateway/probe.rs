//! The requests that the gateway itself sends.
use bytes::Bytes;
use serde_json::Value;

use vstd::prelude::*;

use crate::json::{
    is_simple, json_object, json_string, json_tree, member, members_of, parsed_json, render_bytes,
    rendered_bytes, reserved_key, JsonTree,
};
use crate::payload::{bytes_contents, from_vec};
use crate::settings::{PredictiveScoringConfig, ProbeConfig};

verus! {

/// A request that could not be written down, and which.
#[derive(Debug, Clone, Copy, PartialEq, Eq, Structural)]
pub enum PayloadError {
    Probe,
    BlockLagProbe,
}

impl PayloadError {
    /// What the error is reported with, where it is reported with anything.
    pub fn context(&self) -> (context: Option<String>)
        ensures
            (match self {
                PayloadError::Probe => context is Some && context->0@
                    == "failed to serialize probe payload"@,
                PayloadError::BlockLagProbe => context is None,
            }),
    {
        match self {
            PayloadError::Probe => Some("failed to serialize probe payload".to_string()),
            PayloadError::BlockLagProbe => None,
        }
    }
}

/// A JSON-RPC 2.0 request.
pub open spec fn request_tree(id: Seq<char>, method: Seq<char>, params: JsonTree) -> JsonTree {
    JsonTree::Object(
        Map::<Seq<char>, JsonTree>::empty().insert(
            "jsonrpc"@,
            JsonTree::Text("2.0"@),
        ).insert("id"@, JsonTree::Text(id)).insert("method"@, JsonTree::Text(method)).insert(
            "params"@,
            params,
        ),
    )
}

proof fn lemma_members_distinct()
    ensures
        "jsonrpc"@ != "id"@,
        "jsonrpc"@ != "method"@,
        "jsonrpc"@ != "params"@,
        "id"@ != "method"@,
        "id"@ != "params"@,
        "method"@ != "params"@,
{
    reveal_strlit("jsonrpc");
    reveal_strlit("id");
    reveal_strlit("method");
    reveal_strlit("params");
    assert("jsonrpc"@.len() == 7);
    assert("method"@[0] == 'm');
    assert("params"@[0] == 'p');
}

proof fn lemma_members_not_reserved()
    ensures
        "jsonrpc"@ != reserved_key(),
        "id"@ != reserved_key(),
        "method"@ != reserved_key(),
        "params"@ != reserved_key(),
{
    reveal_strlit("jsonrpc");
    reveal_strlit("id");
    reveal_strlit("method");
    reveal_strlit("params");
    reveal_strlit("$serde_json::private::RawValue");
    assert(reserved_key().len() == 30);
}

/// Makes a JSON-RPC 2.0 request.
fn request_value(id: &str, method: &str, params: &Value) -> (request: Value)
    ensures
        json_tree(request) == request_tree(id@, method@, json_tree(*params)),
{
    proof {
        lemma_members_distinct();
    }
    let mut entries: Vec<(String, Value)> = Vec::new();
    let ghost e0 = entries@;
    entries.push(("jsonrpc".to_string(), json_string("2.0".to_string())));
    let ghost e1 = entries@;
    entries.push(("id".to_string(), json_string(id.to_string())));
    let ghost e2 = entries@;
    entries.push(("method".to_string(), json_string(method.to_string())));
    let ghost e3 = entries@;
    entries.push(("params".to_string(), params.clone()));
    proof {
        assert(entries@.drop_last() =~= e3);
        assert(e3.drop_last() =~= e2);
        assert(e2.drop_last() =~= e1);
        assert(e1.drop_last() =~= e0);
        reveal_with_fuel(members_of, 5);
    }
    json_object(entries)
}

fn render_request(id: &str, method: &str, params: &Value) -> (payload: Option<Bytes>)
    ensures
        (match payload {
            Some(bytes) => rendered_bytes(request_tree(id@, method@, json_tree(*params))) == Some(
                bytes_contents(bytes),
            ),
            None => rendered_bytes(request_tree(id@, method@, json_tree(*params))) is None,
        }),
        is_simple(json_tree(*params), 99) ==> payload is Some && parsed_json(
            bytes_contents(payload->0),
        ) == Some(request_tree(id@, method@, json_tree(*params))),
{
    let request: Value = request_value(id, method, params);
    proof {
        lemma_members_not_reserved();
        reveal_with_fuel(is_simple, 2);
        assert(is_simple(json_tree(*params), 99) ==> is_simple(json_tree(request), 100));
    }
    match render_bytes(&request) {
        Ok(contents) => Some(from_vec(contents)),
        Err(_) => None,
    }
}

/// Whether a payload is a request with this identifier, method and parameters.
/// Parameters of moderate depth whose numbers are all unsigned 64-bit integers, and
/// in which no member stands under the reserved key, can be sent, and the payload
/// reads as that request.
pub open spec fn is_payload(
    payload: Option<Bytes>,
    id: Seq<char>,
    method: Seq<char>,
    params: JsonTree,
) -> bool {
    let request = request_tree(id, method, params);
    &&& match payload {
        Some(bytes) => rendered_bytes(request) == Some(bytes_contents(bytes)),
        None => rendered_bytes(request) is None,
    }
    &&& is_simple(params, 99) ==> payload is Some && parsed_json(bytes_contents(payload->0))
        == Some(request)
}

/// The payload, where there is one.
pub open spec fn sent<E>(payload: Result<Bytes, E>) -> Option<Bytes> {
    match payload {
        Ok(bytes) => Some(bytes),
        Err(_) => None,
    }
}

/// Writes down the request that probes a provider's health.
pub fn build_probe_payload(probe: &ProbeConfig) -> (payload: Result<Bytes, PayloadError>)
    ensures
        is_payload(
            sent(payload),
            "rpc-gateway-probe"@,
            probe.method@,
            json_tree(probe.params),
        ),
        payload matches Err(error) ==> error == PayloadError::Probe,
{
    match render_request("rpc-gateway-probe", probe.method.as_str(), &probe.params) {
        Some(bytes) => Ok(bytes),
        None => Err(PayloadError::Probe),
    }
}

/// Writes down the request that asks a provider for its latest block.
pub fn build_block_lag_payload(config: &PredictiveScoringConfig) -> (payload: Result<
    Bytes,
    PayloadError,
>)
    ensures
        is_payload(
            sent(payload),
            "rpc-gateway-block-lag-probe"@,
            config.block_lag_method@,
            json_tree(config.block_lag_params),
        ),
        payload matches Err(error) ==> error == PayloadError::BlockLagProbe,
{
    match render_request(
        "rpc-gateway-block-lag-probe",
        config.block_lag_method.as_str(),
        &config.block_lag_params,
    ) {
        Some(bytes) => Ok(bytes),
        None => Err(PayloadError::BlockLagProbe),
    }
}

/// A request holds the version, its identifier, its method and its parameters, each
/// under the name that JSON-RPC gives it, and nothing else.
pub proof fn requests_have_four_members(
    id: Seq<char>,
    method: Seq<char>,
    params: JsonTree,
    other: Seq<char>,
)
    ensures
        ({
            let request = request_tree(id, method, params);
            &&& member(request, "jsonrpc"@) == Some(JsonTree::Text("2.0"@))
            &&& member(request, "id"@) == Some(JsonTree::Text(id))
            &&& member(request, "method"@) == Some(JsonTree::Text(method))
            &&& member(request, "params"@) == Some(params)
            &&& other != "jsonrpc"@ && other != "id"@ && other != "method"@ && other != "params"@
                ==> member(request, other) is None
        }),
{
    lemma_members_distinct();
}

/// A request whose parameters are simple can be written down, and what is written
/// down reads as a request with this identifier, this method and these parameters.
pub proof fn payloads_read_as_their_request(
    payload: Option<Bytes>,
    id: Seq<char>,
    method: Seq<char>,
    params: JsonTree,
    tree: JsonTree,
)
    requires
        is_payload(payload, id, method, params),
    ensures
        payload is Some <==> rendered_bytes(request_tree(id, method, params)) is Some,
        payload is Some ==> rendered_bytes(request_tree(id, method, params)) == Some(
            bytes_contents(payload->0),
        ),
        is_simple(params, 99) ==> payload is Some && parsed_json(bytes_contents(payload->0))
            is Some,
        is_simple(params, 99) && parsed_json(bytes_contents(payload->0)) == Some(tree) ==> {
            &&& member(tree, "jsonrpc"@) == Some(JsonTree::Text("2.0"@))
            &&& member(tree, "id"@) == Some(JsonTree::Text(id))
            &&& member(tree, "method"@) == Some(JsonTree::Text(method))
            &&& member(tree, "params"@) == Some(params)
        },
{
    requests_have_four_members(id, method, params, "id"@);
}

} // verus!
