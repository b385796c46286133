//! Reading requests.
use serde_json::Value;

use vstd::prelude::*;

use super::method_policy::{builtin_policy, solana_method_policy_opt};
use crate::json::{json_get, json_tree, json_trees, member, parse_json, parsed_json, JsonTree};

verus! {

/// The text that an object holds under `method`.
pub open spec fn named_method(tree: JsonTree) -> Option<Seq<char>> {
    match member(tree, "method"@) {
        Some(JsonTree::Text(name)) => Some(name),
        _ => None,
    }
}

/// The method that the first request of a batch names that names one.
pub open spec fn first_method(requests: Seq<JsonTree>) -> Option<Seq<char>>
    decreases requests.len(),
{
    if requests.len() == 0 {
        None
    } else {
        match named_method(requests[0]) {
            Some(name) => Some(name),
            None => first_method(requests.skip(1)),
        }
    }
}

/// The method that a request names, or the first one that a batch names.
pub open spec fn requested_method(tree: JsonTree) -> Option<Seq<char>> {
    match tree {
        JsonTree::Array(requests) => first_method(requests),
        _ => named_method(tree),
    }
}

/// The method that a body names.
pub open spec fn body_method(body: Seq<u8>) -> Option<Seq<char>> {
    match parsed_json(body) {
        Some(tree) => requested_method(tree),
        None => None,
    }
}

fn method_of(request: &Value) -> (method: Option<String>)
    ensures
        (match method {
            Some(name) => named_method(json_tree(*request)) == Some(name@),
            None => named_method(json_tree(*request)) is None,
        }),
{
    match json_get(request, "method") {
        Some(value) => match value.as_str() {
            Some(name) => Some(name.to_string()),
            None => None,
        },
        None => None,
    }
}

/// Finds the method that a request or a batch names.
pub fn find_method(value: &Value) -> (method: Option<String>)
    ensures
        (match method {
            Some(name) => requested_method(json_tree(*value)) == Some(name@),
            None => requested_method(json_tree(*value)) is None,
        }),
{
    match value.as_array() {
        Some(requests) => {
            let ghost trees = json_trees(requests@);
            assert(trees.skip(0) =~= trees);
            let mut i: usize = 0;
            while i < requests.len()
                invariant
                    trees == json_trees(requests@),
                    json_tree(*value) == JsonTree::Array(trees),
                    i <= requests@.len(),
                    first_method(trees.skip(i as int)) == first_method(trees),
                decreases requests@.len() - i,
            {
                assert(trees.skip(i as int)[0] == json_tree(requests@[i as int]));
                assert(trees.skip(i as int).skip(1) =~= trees.skip(i + 1));
                if let Some(name) = method_of(&requests[i]) {
                    return Some(name);
                }
                i = i + 1;
            }
            None
        },
        None => method_of(value),
    }
}

/// Reads the method that a body names.
pub fn extract_rpc_method(body: &[u8]) -> (method: Option<String>)
    ensures
        (match method {
            Some(name) => body_method(body@) == Some(name@),
            None => body_method(body@) is None,
        }),
{
    match parse_json(body) {
        Some(value) => find_method(&value),
        None => None,
    }
}

/// Whether responses to a method may be cached, going by the built-in table.
pub fn should_cache_hint(method: Option<&str>) -> (cacheable: bool)
    ensures
        cacheable == (match method {
            Some(name) => builtin_policy(name@).cacheable_by_default,
            None => false,
        }),
{
    solana_method_policy_opt(method).cacheable_by_default
}

/// Whether providers must agree on a method, going by the built-in table.
pub fn is_consensus_critical_method(method: Option<&str>) -> (critical: bool)
    ensures
        critical == (match method {
            Some(name) => builtin_policy(name@).consensus_critical,
            None => false,
        }),
{
    solana_method_policy_opt(method).consensus_critical
}

/// A request that is no batch names the text under `method`, and none where there is
/// no such text; nothing is named by what is no JSON document.
pub proof fn a_request_names_its_method(body: Seq<u8>, tree: JsonTree)
    requires
        parsed_json(body) == Some(tree),
        tree !is Array,
    ensures
        member(tree, "method"@) matches Some(JsonTree::Text(name)) ==> body_method(body) == Some(
            name,
        ),
        (member(tree, "method"@) is None || member(tree, "method"@)->0 !is Text) ==> body_method(
            body,
        ) is None,
{
}

/// A body that is no JSON document names no method.
pub proof fn no_method_without_a_document(body: Seq<u8>)
    requires
        parsed_json(body) is None,
    ensures
        body_method(body) is None,
{
}

/// A batch names the method of the first of its requests that names one, and none
/// where none of them does.
pub proof fn a_batch_names_its_first_method(body: Seq<u8>, requests: Seq<JsonTree>)
    requires
        parsed_json(body) == Some(JsonTree::Array(requests)),
    ensures
        body_method(body) matches Some(name) ==> exists|i: int|
            0 <= i < requests.len() && member(#[trigger] requests[i], "method"@) == Some(
                JsonTree::Text(name),
            ) && forall|k: int|
                0 <= k < i ==> !(member(#[trigger] requests[k], "method"@) matches Some(
                    JsonTree::Text(_),
                )),
        body_method(body) is None ==> forall|k: int|
            0 <= k < requests.len() ==> !(member(#[trigger] requests[k], "method"@) matches Some(
                JsonTree::Text(_),
            )),
{
    lemma_first_method(requests);
}

proof fn lemma_first_method(requests: Seq<JsonTree>)
    ensures
        first_method(requests) matches Some(name) ==> exists|i: int|
            0 <= i < requests.len() && member(#[trigger] requests[i], "method"@) == Some(
                JsonTree::Text(name),
            ) && forall|k: int|
                0 <= k < i ==> !(member(#[trigger] requests[k], "method"@) matches Some(
                    JsonTree::Text(_),
                )),
        first_method(requests) is None ==> forall|k: int|
            0 <= k < requests.len() ==> !(member(#[trigger] requests[k], "method"@) matches Some(
                JsonTree::Text(_),
            )),
    decreases requests.len(),
{
    if requests.len() > 0 && named_method(requests[0]) is None {
        let rest = requests.skip(1);
        lemma_first_method(rest);
        if let Some(name) = first_method(rest) {
            let i = choose|i: int|
                0 <= i < rest.len() && member(#[trigger] rest[i], "method"@) == Some(
                    JsonTree::Text(name),
                ) && forall|k: int|
                    0 <= k < i ==> !(member(#[trigger] rest[k], "method"@) matches Some(
                        JsonTree::Text(_),
                    ));
            assert(requests[i + 1] == rest[i]);
            assert forall|k: int| 0 <= k < i + 1 implies !(member(
                #[trigger] requests[k],
                "method"@,
            ) matches Some(JsonTree::Text(_))) by {
                if k > 0 {
                    assert(rest[k - 1] == requests[k]);
                }
            }
        } else {
            assert forall|k: int| 0 <= k < requests.len() implies !(member(
                #[trigger] requests[k],
                "method"@,
            ) matches Some(JsonTree::Text(_))) by {
                if k > 0 {
                    assert(rest[k - 1] == requests[k]);
                }
            }
        }
    } else if requests.len() > 0 {
        assert(member(requests[0], "method"@) == Some(
            JsonTree::Text(first_method(requests)->0),
        ));
    }
}

} // verus!
