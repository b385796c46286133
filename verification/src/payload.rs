//! Request and response bodies, and the keys that identify requests.
use bytes::Bytes;
use sha2::{Digest, Sha256};

use vstd::prelude::*;
use vstd::string::*;

use crate::text::lowercase;

verus! {

/// `bytes::Bytes`, a cheaply cloned byte string.
#[verifier::external_type_specification]
#[verifier::external_body]
pub struct ExBytes(Bytes);

/// What a byte string holds.
pub uninterp spec fn bytes_contents(bytes: Bytes) -> Seq<u8>;

/// `Bytes::clone` makes an equal byte string, which refers to the same contents.
pub assume_specification[ <Bytes as Clone>::clone ](bytes: &Bytes) -> (copy: Bytes)
    ensures
        copy == *bytes,
;

/// `Bytes::deref`: the contents as a slice.
#[verifier::external_body]
pub(crate) fn as_slice(bytes: &Bytes) -> (slice: &[u8])
    ensures
        slice@ == bytes_contents(*bytes),
{
    bytes
}

/// `Bytes::from` a vector: a byte string with the vector's contents.
#[verifier::external_body]
pub(crate) fn from_vec(contents: Vec<u8>) -> (bytes: Bytes)
    ensures
        bytes_contents(bytes) == contents@,
{
    Bytes::from(contents)
}

/// The SHA-256 digest of a byte string.
pub uninterp spec fn sha256_digest(data: Seq<u8>) -> [u8; 32];

/// `sha2::Sha256::digest`: the digest of the data, as an array.
#[verifier::external_body]
fn sha256(data: &[u8]) -> (digest: [u8; 32])
    ensures
        digest == sha256_digest(data@),
{
    Sha256::digest(data).into()
}

/// The lower-case hexadecimal digit of a number below sixteen.
pub open spec fn hex_digit(value: int) -> char {
    if value < 10 {
        (48 + value) as char
    } else {
        (87 + value) as char
    }
}

/// A byte string in lower-case hexadecimal, two digits to the byte, the high
/// half first.
pub open spec fn hex_text(data: Seq<u8>) -> Seq<char> {
    Seq::new(
        2 * data.len(),
        |i: int|
            if i % 2 == 0 {
                hex_digit(data[i / 2] as int / 16)
            } else {
                hex_digit(data[i / 2] as int % 16)
            },
    )
}

/// `hex::encode`: two lower-case hexadecimal digits for each byte.
#[verifier::external_body]
fn hex_encode(data: &[u8]) -> (text: String)
    ensures
        text@ == hex_text(data@),
{
    hex::encode(data)
}

/// The key of a request: its method in lower case, a colon, and the hexadecimal
/// SHA-256 digest of its body.
pub open spec fn request_key(method: Seq<char>, body: Seq<u8>) -> Seq<char> {
    lowercase(method) + ":"@ + hex_text(sha256_digest(body)@)
}

/// Computes the key of a request.
pub fn request_key_of(method: &str, body: &[u8]) -> (key: String)
    ensures
        key@ == request_key(method@, body@),
{
    let digest: [u8; 32] = sha256(body);
    let digest_text: String = hex_encode(digest.as_slice());
    let mut key: String = method.to_ascii_lowercase();
    key.append(":");
    key.append(digest_text.as_str());
    key
}

proof fn lemma_hex_digit_injective(a: int, b: int)
    requires
        0 <= a < 16,
        0 <= b < 16,
        hex_digit(a) == hex_digit(b),
    ensures
        a == b,
{
}

proof fn lemma_hex_text_injective(a: Seq<u8>, b: Seq<u8>)
    requires
        hex_text(a) == hex_text(b),
    ensures
        a == b,
{
    assert(hex_text(a).len() == 2 * a.len());
    assert(hex_text(b).len() == 2 * b.len());
    assert forall|i: int| 0 <= i < a.len() implies a[i] == b[i] by {
        let high = 2 * i;
        let low = 2 * i + 1;
        assert(hex_text(a)[high] == hex_digit(a[i] as int / 16));
        assert(hex_text(b)[high] == hex_digit(b[i] as int / 16));
        assert(hex_text(a)[low] == hex_digit(a[i] as int % 16));
        assert(hex_text(b)[low] == hex_digit(b[i] as int % 16));
        lemma_hex_digit_injective(a[i] as int / 16, b[i] as int / 16);
        lemma_hex_digit_injective(a[i] as int % 16, b[i] as int % 16);
    }
    assert(a =~= b);
}

/// Two requests have the same key exactly if their methods agree up to letter
/// case and their bodies have the same digest.
pub proof fn keys_identify_method_and_digest(
    method: Seq<char>,
    body: Seq<u8>,
    other_method: Seq<char>,
    other_body: Seq<u8>,
)
    ensures
        request_key(method, body) == request_key(other_method, other_body) <==> (lowercase(method)
            == lowercase(other_method) && sha256_digest(body) == sha256_digest(other_body)),
{
    let left = request_key(method, body);
    let right = request_key(other_method, other_body);
    if left == right {
        reveal_strlit(":");
        let m = lowercase(method);
        let n = lowercase(other_method);
        let d = hex_text(sha256_digest(body)@);
        let e = hex_text(sha256_digest(other_body)@);
        assert(d.len() == e.len());
        assert(left.len() == m.len() + 1 + d.len());
        assert(right.len() == n.len() + 1 + e.len());
        assert(left.take(m.len() as int) =~= m);
        assert(right.take(n.len() as int) =~= n);
        assert(left.skip(m.len() as int + 1) =~= d);
        assert(right.skip(n.len() as int + 1) =~= e);
        lemma_hex_text_injective(sha256_digest(body)@, sha256_digest(other_body)@);
        assert(sha256_digest(body) =~= sha256_digest(other_body));
    }
}

/// The key of a request begins with its method in lower case; behind a colon follow
/// the 64 hexadecimal digits of the digest of its body, two to the byte.
pub proof fn keys_spell_out_method_and_digest(method: Seq<char>, body: Seq<u8>)
    ensures
        ({
            let key = request_key(method, body);
            let start = method.len() as int;
            &&& key.len() == method.len() + 65
            &&& key.take(start) == lowercase(method)
            &&& key[start] == ':'
            &&& forall|i: int|
                0 <= i < 32 ==> {
                    let byte = #[trigger] sha256_digest(body)@[i] as int;
                    &&& key[start + 1 + 2 * i] == hex_digit(byte / 16)
                    &&& key[start + 2 + 2 * i] == hex_digit(byte % 16)
                }
        }),
        forall|value: int|
            0 <= value < 10 ==> (#[trigger] hex_digit(value)) as u32 == '0' as u32 + value,
        forall|value: int|
            10 <= value < 16 ==> (#[trigger] hex_digit(value)) as u32 == 'a' as u32 + value - 10,
{
    reveal_strlit(":");
    let key = request_key(method, body);
    assert(key.take(method.len() as int) =~= lowercase(method));
}

} // verus!
