//! SHA-256, HMAC-SHA-256 and UUID text, from the `sha2`, `hmac` and `uuid`
//! crates.
use vstd::prelude::*;

use hmac::Mac;
use sha2::Digest;

use crate::text::{hex_lower, hex_lower_bytes};

verus! {

/// The SHA-256 digest of a byte string.
pub uninterp spec fn sha256(data: Seq<u8>) -> Seq<u8>;

/// `sha2::Sha256::digest`. Claimed: the result is `sha256` of the input,
/// 32 bytes long.
#[verifier::external_body]
pub(crate) fn sha256_digest(data: &[u8]) -> (r: Vec<u8>)
    ensures
        r@ == sha256(data@),
        r@.len() == 32,
{
    sha2::Sha256::digest(data).to_vec()
}

/// HMAC-SHA-256 of a message under a key.
pub uninterp spec fn hmac_sha256(key: Seq<u8>, message: Seq<u8>) -> Seq<u8>;

/// `hmac::Hmac::<sha2::Sha256>`: keyed with `new_from_slice` (which accepts
/// keys of any length), fed the message, finalized. Claimed: the result is
/// `hmac_sha256` of the key and message, 32 bytes long.
#[verifier::external_body]
pub(crate) fn hmac_sha256_digest(key: &[u8], message: &[u8]) -> (r: Vec<u8>)
    ensures
        r@ == hmac_sha256(key@, message@),
        r@.len() == 32,
{
    match <hmac::Hmac<sha2::Sha256> as hmac::KeyInit>::new_from_slice(key) {
        Ok(mac) => mac.chain_update(message).finalize().into_bytes().to_vec(),
        Err(_) => Vec::new(),
    }
}

/// The hyphenated lowercase text of a 16-byte UUID: 32 hex digits grouped
/// 8-4-4-4-12.
pub open spec fn uuid_text(bytes: Seq<u8>) -> Seq<char> {
    let h = hex_lower_bytes(bytes);
    h.subrange(0, 8) + seq!['-'] + h.subrange(8, 12) + seq!['-'] + h.subrange(12, 16) + seq!['-']
        + h.subrange(16, 20) + seq!['-'] + h.subrange(20, 32)
}

/// `uuid::Uuid::from_slice(bytes)` displayed (`to_string`). Claimed: the
/// text is `uuid_text` of the 16 bytes.
#[verifier::external_body]
pub(crate) fn uuid_hyphenated(bytes: &[u8]) -> (r: String)
    requires
        bytes@.len() == 16,
    ensures
        r@ == uuid_text(bytes@),
{
    match uuid::Uuid::from_slice(bytes) {
        Ok(u) => u.to_string(),
        Err(_) => String::new(),
    }
}

/// A lowercase hexadecimal digit.
pub open spec fn is_lower_hex(c: char) -> bool {
    ('0' <= c && c <= '9') || ('a' <= c && c <= 'f')
}

/// The shape of a UUID in simple form: 32 lowercase hex digits.
pub open spec fn is_simple_uuid_shape(t: Seq<char>) -> bool {
    &&& t.len() == 32
    &&& forall|i: int| 0 <= i < 32 ==> is_lower_hex(#[trigger] t[i])
}

/// `uuid::Uuid::new_v4().simple()` displayed: a random UUID as 32
/// lowercase hex digits. Claimed: 32 characters, each a lowercase hex
/// digit; which ones is chance.
#[verifier::external_body]
pub(crate) fn random_uuid_simple() -> (r: String)
    ensures
        is_simple_uuid_shape(r@),
{
    uuid::Uuid::new_v4().simple().to_string()
}

/// SHA-256 of bytes, lowercase hex.
pub fn sha256_hex(data: &[u8]) -> (out: String)
    ensures
        out@ == hex_lower_bytes(sha256(data@)),
        out@.len() == 64,
{
    let d = sha256_digest(data);
    let h = crate::text::hex_lower_bytes_exec(&d);
    crate::text::string_from_chars(&h)
}

} // verus!
