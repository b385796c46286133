//! JSON documents as trees.
use serde_json::{Error, Value};

use vstd::prelude::*;

verus! {

/// `serde_json::Value`, an opaque JSON document.
#[verifier::external_type_specification]
#[verifier::external_body]
pub struct ExValue(Value);

/// `serde_json::Error`, why a document could not be read or written.
#[verifier::external_type_specification]
#[verifier::external_body]
pub struct ExError(Error);

/// A JSON document. A number that is no unsigned 64-bit integer is kept by its
/// text.
pub enum JsonTree {
    Null,
    Bool(bool),
    Unsigned(u64),
    OtherNumber(Seq<char>),
    Text(Seq<char>),
    Array(Seq<JsonTree>),
    Object(Map<Seq<char>, JsonTree>),
}

/// The document that a value holds.
pub uninterp spec fn json_tree(value: Value) -> JsonTree;

/// The documents that a list of values holds.
pub open spec fn json_trees(values: Seq<Value>) -> Seq<JsonTree> {
    values.map_values(|value: Value| json_tree(value))
}

/// What an object holds under a key; nothing else has members.
pub open spec fn member(tree: JsonTree, key: Seq<char>) -> Option<JsonTree> {
    match tree {
        JsonTree::Object(members) => if members.contains_key(key) {
            Some(members[key])
        } else {
            None
        },
        _ => None,
    }
}

/// What is reached from a document by descending from member to member.
pub open spec fn descendant(tree: JsonTree, keys: Seq<Seq<char>>) -> Option<JsonTree>
    decreases keys.len(),
{
    if keys.len() == 0 {
        Some(tree)
    } else {
        match member(tree, keys[0]) {
            Some(child) => descendant(child, keys.skip(1)),
            None => None,
        }
    }
}

/// Whether a key stands for itself in a JSON pointer and cannot be read as the
/// index of an array.
pub open spec fn is_plain_key(key: Seq<char>) -> bool {
    &&& forall|i: int| 0 <= i < key.len() ==> #[trigger] key[i] != '/' && key[i] != '~'
    &&& key.len() > 0 ==> key[0] != '+' && !('0' <= key[0] <= '9')
}

/// The JSON pointer that descends through the given keys.
pub open spec fn pointer_to(keys: Seq<Seq<char>>) -> Seq<char>
    decreases keys.len(),
{
    if keys.len() == 0 {
        Seq::empty()
    } else {
        "/"@ + keys[0] + pointer_to(keys.skip(1))
    }
}

/// The members that a list of entries makes up; a later entry replaces an
/// earlier one under the same key.
pub open spec fn members_of(entries: Seq<(String, Value)>) -> Map<Seq<char>, JsonTree>
    decreases entries.len(),
{
    if entries.len() == 0 {
        Map::empty()
    } else {
        members_of(entries.drop_last()).insert(entries.last().0@, json_tree(entries.last().1))
    }
}

/// The key that `serde_json` reserves for embedded JSON text: an object that begins
/// with it is not read as an object, but as the document that its member spells out.
pub open spec fn reserved_key() -> Seq<char> {
    "$serde_json::private::RawValue"@
}

/// Whether a document nests at most `depth` levels deep, holds no number but
/// unsigned 64-bit integers, and no member under the reserved key.
pub open spec fn is_simple(tree: JsonTree, depth: nat) -> bool
    decreases depth,
{
    match tree {
        JsonTree::OtherNumber(_) => false,
        JsonTree::Array(items) => depth > 0 && forall|i: int|
            0 <= i < items.len() ==> is_simple(#[trigger] items[i], (depth - 1) as nat),
        JsonTree::Object(members) => depth > 0 && forall|key: Seq<char>| #[trigger]
            members.contains_key(key) ==> key != reserved_key() && is_simple(
            members[key],
            (depth - 1) as nat,
        ),
        _ => true,
    }
}

/// The document that a byte string parses to, if it is one JSON document.
pub uninterp spec fn parsed_json(text: Seq<u8>) -> Option<JsonTree>;

/// A document as compact JSON text, if it can be written.
pub uninterp spec fn rendered_text(tree: JsonTree) -> Option<Seq<char>>;

/// A document as the bytes of compact JSON text, if it can be written.
pub uninterp spec fn rendered_bytes(tree: JsonTree) -> Option<Seq<u8>>;

/// `serde_json::from_slice` into a `Value`: the document that the bytes spell
/// out, or nothing where they are no JSON document.
#[verifier::external_body]
pub(crate) fn parse_json(text: &[u8]) -> (value: Option<Value>)
    ensures
        (match value {
            Some(v) => parsed_json(text@) == Some(json_tree(v)),
            None => parsed_json(text@) is None,
        }),
{
    serde_json::from_slice(text).ok()
}

/// `serde_json::to_string` of a `Value`: the document as compact JSON text.
#[verifier::external_body]
pub(crate) fn render_text(value: &Value) -> (text: Result<String, Error>)
    ensures
        (match text {
            Ok(t) => rendered_text(json_tree(*value)) == Some(t@),
            Err(_) => rendered_text(json_tree(*value)) is None,
        }),
{
    serde_json::to_string(value)
}

/// `serde_json::to_vec` of a `Value`: the document as the bytes of compact JSON
/// text. A document of moderate depth whose numbers are all unsigned 64-bit
/// integers, and in which no member stands under the reserved key, can be written,
/// and `serde_json::from_slice` reads it back.
#[verifier::external_body]
pub(crate) fn render_bytes(value: &Value) -> (bytes: Result<Vec<u8>, Error>)
    ensures
        (match bytes {
            Ok(b) => rendered_bytes(json_tree(*value)) == Some(b@),
            Err(_) => rendered_bytes(json_tree(*value)) is None,
        }),
        is_simple(json_tree(*value), 100) ==> bytes is Ok && parsed_json(bytes->Ok_0@) == Some(
            json_tree(*value),
        ),
{
    serde_json::to_vec(value)
}

/// `Value::get` with a string: the member of an object under that key.
#[verifier::external_body]
pub(crate) fn json_get<'a>(value: &'a Value, key: &str) -> (found: Option<&'a Value>)
    ensures
        (match found {
            Some(v) => member(json_tree(*value), key@) == Some(json_tree(*v)),
            None => member(json_tree(*value), key@) is None,
        }),
{
    value.get(key)
}

/// `Value::pointer`: what the pointer leads to. Of a pointer whose tokens stand
/// for themselves and are no indices, it is the descendant under these keys.
pub assume_specification<'a>[ Value::pointer ](value: &'a Value, pointer: &str) -> (found: Option<&'a Value>)
    ensures
        forall|keys: Seq<Seq<char>>|
            (forall|i: int| 0 <= i < keys.len() ==> is_plain_key(#[trigger] keys[i])) && pointer@
                == #[trigger] pointer_to(keys) ==> (match found {
                Some(v) => descendant(json_tree(*value), keys) == Some(json_tree(*v)),
                None => descendant(json_tree(*value), keys) is None,
            }),
;

/// `Value::as_str`: the text, where the document is a string.
pub assume_specification[ Value::as_str ](value: &Value) -> (text: Option<&str>)
    ensures
        (match text {
            Some(t) => json_tree(*value) == JsonTree::Text(t@),
            None => json_tree(*value) !is Text,
        }),
;

/// `Value::as_u64`: the number, where the document is an unsigned 64-bit integer.
pub assume_specification[ Value::as_u64 ](value: &Value) -> (number: Option<u64>)
    ensures
        (match number {
            Some(n) => json_tree(*value) == JsonTree::Unsigned(n),
            None => json_tree(*value) !is Unsigned,
        }),
;

/// `Value::as_array`: the items, where the document is an array.
pub assume_specification[ Value::as_array ](value: &Value) -> (items: Option<&Vec<Value>>)
    ensures
        (match items {
            Some(v) => json_tree(*value) == JsonTree::Array(json_trees(v@)),
            None => json_tree(*value) !is Array,
        }),
;

/// `Value::clone` makes a value that holds the same document.
pub assume_specification[ <Value as Clone>::clone ](value: &Value) -> (copy: Value)
    ensures
        json_tree(copy) == json_tree(*value),
;

/// `Value::String` makes a document of a text.
#[verifier::external_body]
pub(crate) fn json_string(text: String) -> (value: Value)
    ensures
        json_tree(value) == JsonTree::Text(text@),
{
    Value::String(text)
}

/// `Value::Array` makes a document of a list of documents.
#[verifier::external_body]
pub(crate) fn json_array(items: Vec<Value>) -> (value: Value)
    ensures
        json_tree(value) == JsonTree::Array(json_trees(items@)),
{
    Value::Array(items)
}

/// `Value::Object` of a `serde_json::Map` collected from entries with distinct
/// keys.
#[verifier::external_body]
pub(crate) fn json_object(entries: Vec<(String, Value)>) -> (value: Value)
    requires
        forall|i: int, j: int|
            0 <= i < j < entries@.len() ==> #[trigger] entries@[i].0@
                != #[trigger] entries@[j].0@,
    ensures
        json_tree(value) == JsonTree::Object(members_of(entries@)),
{
    Value::Object(entries.into_iter().collect())
}

/// A path is followed key by key, from the document itself on: where an object holds
/// something under the first key, the rest of the path is followed from there, and
/// where it does not, the path leads nowhere. Nothing but an object has members.
pub proof fn paths_are_followed_key_by_key(tree: JsonTree, key: Seq<char>, rest: Seq<Seq<char>>)
    ensures
        descendant(tree, seq![]) == Some(tree),
        tree matches JsonTree::Object(members) && members.contains_key(key) ==> member(tree, key)
            == Some(tree->Object_0[key]) && descendant(tree, seq![key] + rest) == descendant(
            tree->Object_0[key],
            rest,
        ),
        tree matches JsonTree::Object(members) && !members.contains_key(key) ==> member(tree, key)
            is None && descendant(tree, seq![key] + rest) is None,
        !(tree is Object) ==> member(tree, key) is None && descendant(tree, seq![key] + rest)
            is None,
{
    let keys = seq![key] + rest;
    assert(keys[0] == key);
    assert(keys.skip(1) =~= rest);
}

/// Of several entries under one key the last is the member.
pub proof fn the_last_entry_is_the_member(entries: Seq<(String, Value)>, index: int)
    requires
        0 <= index < entries.len(),
        forall|i: int| index < i < entries.len() ==> (#[trigger] entries[i]).0@ != entries[index].0@,
    ensures
        members_of(entries).contains_key(entries[index].0@),
        members_of(entries)[entries[index].0@] == json_tree(entries[index].1),
    decreases entries.len(),
{
    if index < entries.len() - 1 {
        let before = entries.drop_last();
        assert(before[index] == entries[index]);
        assert forall|i: int| index < i < before.len() implies (#[trigger] before[i]).0@
            != before[index].0@ by {
            assert(before[i] == entries[i]);
        }
        the_last_entry_is_the_member(before, index);
        assert(entries[entries.len() - 1].0@ != entries[index].0@);
    }
}

} // verus!
