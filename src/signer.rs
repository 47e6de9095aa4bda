//! The signer: a keyed hash over the canonical text, rendered in base64.
use vstd::prelude::*;
use vstd::utf8::encode_utf8;
use base64::Engine;

verus! {

/// The HMAC-SHA1 tag of `msg` under `key`.
pub uninterp spec fn hmac_sha1(key: Seq<u8>, msg: Seq<u8>) -> Seq<u8>;

/// The character of a six-bit value in the standard base64 alphabet.
pub open spec fn base64_digit(v: int) -> char {
    "ABCDEFGHIJKLMNOPQRSTUVWXYZabcdefghijklmnopqrstuvwxyz0123456789+/"@[v]
}

/// The standard base64 text of `b`: each group of three bytes becomes four
/// characters, and a last group of one or two bytes is padded with `=`.
pub open spec fn base64_of(b: Seq<u8>) -> Seq<char>
    decreases b.len(),
{
    let x = b[0] as int;
    let y = b[1] as int;
    let z = b[2] as int;
    if b.len() == 0 {
        seq![]
    } else if b.len() == 1 {
        seq![base64_digit(x / 4), base64_digit((x % 4) * 16), '=', '=']
    } else if b.len() == 2 {
        seq![base64_digit(x / 4), base64_digit((x % 4) * 16 + y / 16), base64_digit((y % 16) * 4), '=']
    } else {
        seq![
            base64_digit(x / 4),
            base64_digit((x % 4) * 16 + y / 16),
            base64_digit((y % 16) * 4 + z / 64),
            base64_digit(z % 64),
        ] + base64_of(b.subrange(3, b.len() as int))
    }
}

/// Inputs, in bytes, must stay below this for the keyed hash: the digest
/// refuses a bit length that does not fit in 64 bits, and the key's pad block
/// comes before the message.
pub const HMAC_INPUT_LIMIT: u64 = 0x1fff_ffff_ffff_ffc0;

/// Relies on ring's `hmac::Key::new` and `hmac::sign` with
/// HMAC_SHA1_FOR_LEGACY_USE_ONLY: the tag is a function of the key and the
/// message, 20 bytes long. Both calls panic on inputs of 2^61 bytes or more.
#[verifier::external_body]
fn hmac_sha1_tag(key: &[u8], msg: &[u8]) -> (r: Vec<u8>)
    requires
        key@.len() < HMAC_INPUT_LIMIT,
        msg@.len() < HMAC_INPUT_LIMIT,
    ensures
        r@ == hmac_sha1(key@, msg@),
        r@.len() == 20,
{
    let k = ring::hmac::Key::new(ring::hmac::HMAC_SHA1_FOR_LEGACY_USE_ONLY, key);
    ring::hmac::sign(&k, msg).as_ref().to_vec()
}

/// Relies on base64's STANDARD engine `encode`: standard alphabet, padded.
/// It panics when the encoded length does not fit in memory, which the bound
/// rules out.
#[verifier::external_body]
pub(crate) fn base64_encode(bytes: &[u8]) -> (r: String)
    requires
        bytes@.len() <= usize::MAX / 4,
    ensures
        r@ == base64_of(bytes@),
{
    base64::engine::general_purpose::STANDARD.encode(bytes)
}

/// The signature of a canonical text under a secret.
pub open spec fn signature_of(secret: Seq<char>, canonical: Seq<char>) -> Seq<char> {
    base64_of(hmac_sha1(encode_utf8(secret), encode_utf8(canonical)))
}

/// Whether the keyed hash accepts a secret and a canonical text of these sizes.
pub open spec fn fits_hmac(secret: Seq<char>, canonical: Seq<char>) -> bool {
    encode_utf8(secret).len() < HMAC_INPUT_LIMIT && encode_utf8(canonical).len() < HMAC_INPUT_LIMIT
}

/// Signs the canonical text with the secret: HMAC-SHA1 over its UTF-8 bytes,
/// rendered in base64. None when an input is too large for the keyed hash.
pub fn sign(canonical: &str, secret: &str) -> (r: Option<String>)
    ensures
        r is Some <==> fits_hmac(secret@, canonical@),
        r matches Some(s) ==> s@ == signature_of(secret@, canonical@),
{
    let key = secret.as_bytes();
    let msg = canonical.as_bytes();
    if key.len() as u64 >= HMAC_INPUT_LIMIT || msg.len() as u64 >= HMAC_INPUT_LIMIT {
        return None;
    }
    let tag = hmac_sha1_tag(key, msg);
    Some(base64_encode(tag.as_slice()))
}

/// The `Authorization` header value: `OSS <key id>:<signature>`.
pub open spec fn authorization_of(ak_id: Seq<char>, signature: Seq<char>) -> Seq<char> {
    seq!['O', 'S', 'S', ' '] + ak_id + seq![':'] + signature
}

pub fn authorization(ak_id: &str, signature: &str) -> (r: String)
    ensures
        r@ == authorization_of(ak_id@, signature@),
{
    let mut out = String::from_str("OSS ");
    out.append(ak_id);
    crate::text::push_char(&mut out, ':');
    out.append(signature);
    proof {
        reveal_strlit("OSS ");
    }
    assert(out@ =~= authorization_of(ak_id@, signature@));
    out
}

} // verus!
