//! Content identifiers: SHA-256 over the canonical rendering, in lowercase hex.

use vstd::prelude::*;
use vstd::utf8::encode_utf8;
use crate::json::{
    JsonModel, JsonValue, canonical_json, canonical_text, lemma_key_order_irrelevant,
    same_up_to_key_order,
};
use crate::text::string_from_chars;

verus! {

/// The SHA-256 digest of `bytes`.
pub uninterp spec fn sha256_of(bytes: Seq<u8>) -> Seq<u8>;

/// Relies on `sha2::Sha256::digest`: the 32-byte SHA-256 digest of the input,
/// a function of the bytes alone.
#[verifier::external_body]
fn sha256(bytes: &[u8]) -> (r: Vec<u8>)
    ensures
        r@ == sha256_of(bytes@),
        r@.len() == 32,
{
    <sha2::Sha256 as sha2::Digest>::digest(bytes).to_vec()
}

/// The lowercase hexadecimal digit of `n`, for `n < 16`.
pub open spec fn hex_digit(n: u8) -> char {
    if n < 10 {
        (n + 48) as u8 as char
    } else {
        (n + 87) as u8 as char
    }
}

/// Two lowercase hexadecimal digits per byte, high nibble first.
pub open spec fn hex_of(bytes: Seq<u8>) -> Seq<char>
    decreases bytes.len(),
{
    if bytes.len() == 0 {
        Seq::empty()
    } else {
        hex_of(bytes.drop_last()) + seq![
            hex_digit(bytes.last() / 16),
            hex_digit(bytes.last() % 16),
        ]
    }
}

/// The content identifier of a value: the hex SHA-256 digest of the UTF-8
/// bytes of its canonical rendering.
pub open spec fn content_hash(m: JsonModel) -> Seq<char> {
    hex_of(sha256_of(encode_utf8(canonical_text(m))))
}

pub proof fn lemma_hex_len(bytes: Seq<u8>)
    ensures
        hex_of(bytes).len() == 2 * bytes.len(),
    decreases bytes.len(),
{
    if bytes.len() > 0 {
        lemma_hex_len(bytes.drop_last());
    }
}

fn hex_digit_exec(n: u8) -> (c: char)
    requires
        n < 16,
    ensures
        c == hex_digit(n),
{
    if n < 10 {
        (n + 48) as char
    } else {
        (n + 87) as char
    }
}

/// Lowercase hexadecimal text of `bytes`.
pub fn to_hex(bytes: &Vec<u8>) -> (r: String)
    ensures
        r@ == hex_of(bytes@),
{
    let mut out: Vec<char> = Vec::new();
    let mut i: usize = 0;
    while i < bytes.len()
        invariant
            i <= bytes@.len(),
            out@ == hex_of(bytes@.take(i as int)),
        decreases bytes@.len() - i,
    {
        let b = bytes[i];
        out.push(hex_digit_exec(b / 16));
        out.push(hex_digit_exec(b % 16));
        assert(bytes@.take(i + 1).drop_last() =~= bytes@.take(i as int));
        assert(out@ =~= hex_of(bytes@.take(i + 1)));
        i = i + 1;
    }
    assert(bytes@.take(bytes@.len() as int) =~= bytes@);
    string_from_chars(&out)
}

/// The content identifier of `obj`: 64 lowercase hex digits that depend only
/// on the value, not on the order of object members.
pub fn compute_content_hash(obj: &JsonValue) -> (r: String)
    ensures
        r@ == content_hash(obj@),
        r@.len() == 64,
{
    let text = canonical_json(obj);
    let digest = sha256(text.as_str().as_bytes());
    proof {
        lemma_hex_len(digest@);
    }
    to_hex(&digest)
}

/// Hashing is deterministic: values with the same content have the same
/// identifier, however often it is computed.
pub proof fn lemma_hash_deterministic(a: JsonModel, b: JsonModel)
    requires
        a == b,
    ensures
        content_hash(a) == content_hash(b),
{
}

/// Reordering object members, at any depth, leaves the content identifier
/// unchanged.
pub proof fn lemma_hash_ignores_key_order(a: JsonModel, b: JsonModel)
    requires
        same_up_to_key_order(a, b),
    ensures
        content_hash(a) == content_hash(b),
{
    lemma_key_order_irrelevant(a, b);
}

} // verus!
