//! The cryptographic primitives and text encodings that the tokens are built
//! from. Hashing and encoding are done by the `hmac`, `sha2`, `hex` and
//! `base64_url` crates; this module states what the rest of the library may
//! rely on, and nothing here is proved about those crates.

use vstd::prelude::*;
use hmac::{Hmac, Mac};
use sha2::{Digest, Sha256};
use super::text::digit_char;

verus! {

/// Length in bytes of a SHA-256 digest, and of an HMAC-SHA-256 code.
pub const DIGEST_LENGTH: usize = 32;

/// The HMAC-SHA-256 authentication code of `payload` under `key`.
pub uninterp spec fn hmac_sha256(key: Seq<u8>, payload: Seq<u8>) -> Seq<u8>;

/// The SHA-256 digest of `data`.
pub uninterp spec fn sha256(data: Seq<u8>) -> Seq<u8>;

/// The URL-safe base64 text of `bytes`, without padding.
pub uninterp spec fn base64_url(bytes: Seq<u8>) -> Seq<char>;

/// The hexadecimal digit that stands for `v`, for `v` below sixteen.
pub open spec fn hex_digit(v: nat, upper: bool) -> char {
    if v < 10 {
        digit_char(v)
    } else if upper {
        (('A' as u8) + ((v - 10) as u8)) as char
    } else {
        (('a' as u8) + ((v - 10) as u8)) as char
    }
}

/// The hexadecimal text of `bytes`: two digits for each byte, the high half
/// first.
pub open spec fn hex_chars(bytes: Seq<u8>, upper: bool) -> Seq<char> {
    Seq::new(
        2 * bytes.len(),
        |i: int|
            if i % 2 == 0 {
                hex_digit((bytes[i / 2] / 16) as nat, upper)
            } else {
                hex_digit((bytes[i / 2] % 16) as nat, upper)
            },
    )
}

/// Whether `c` belongs to the URL-safe base64 alphabet.
pub open spec fn is_base64_url_char(c: char) -> bool {
    ('A' <= c <= 'Z') || ('a' <= c <= 'z') || ('0' <= c <= '9') || c == '-' || c == '_'
}

/// Number of characters that unpadded base64 takes for `n` bytes.
pub open spec fn base64_length(n: nat) -> nat {
    (4 * n + 2) / 3
}

/// Computes the HMAC-SHA-256 code of `payload` under `key` with
/// `Hmac::<Sha256>::new_from_slice`, `update` and `finalize`. HMAC takes a key
/// of any length, so the construction is claimed never to fail; the code is
/// claimed to be the 32 bytes that HMAC-SHA-256 defines for the two inputs.
#[verifier::external_body]
pub(crate) fn hmac_sha256_code(key: &[u8], payload: &[u8]) -> (code: Result<Vec<u8>, ()>)
    ensures
        code is Ok,
        code->Ok_0@ == hmac_sha256(key@, payload@),
        code->Ok_0@.len() == DIGEST_LENGTH,
{
    let mut hmac = Hmac::<Sha256>::new_from_slice(key).or(Err(()))?;
    hmac.update(payload);
    Ok(hmac.finalize().into_bytes().to_vec())
}

/// Computes the SHA-256 digest of `data` with `Sha256::new`, `update` and
/// `finalize`: claimed to be the 32 bytes that SHA-256 defines for `data`.
#[verifier::external_body]
pub(crate) fn sha256_digest(data: &[u8]) -> (digest: Vec<u8>)
    ensures
        digest@ == sha256(data@),
        digest@.len() == DIGEST_LENGTH,
{
    let mut hasher = Sha256::new();
    hasher.update(data);
    hasher.finalize().to_vec()
}

/// Calls `hex::encode`: claimed to write each byte as two lower-case
/// hexadecimal digits, the high half first.
#[verifier::external_body]
pub(crate) fn hex_encode(bytes: &[u8]) -> (text: String)
    ensures
        text@ == hex_chars(bytes@, false),
{
    hex::encode(bytes)
}

/// Calls `hex::encode_upper`: claimed to write each byte as two upper-case
/// hexadecimal digits, the high half first.
#[verifier::external_body]
pub(crate) fn hex_encode_upper(bytes: &[u8]) -> (text: String)
    ensures
        text@ == hex_chars(bytes@, true),
{
    hex::encode_upper(bytes)
}

/// Calls `base64_url::encode`: claimed to give the unpadded URL-safe base64
/// text of `bytes`, which has four characters for every three bytes, rounded
/// up, all of them from the URL-safe alphabet. The call panics when that
/// length does not fit in `usize`, so such inputs are left out.
#[verifier::external_body]
pub(crate) fn base64_url_encode(bytes: &[u8]) -> (text: String)
    requires
        4 * (bytes@.len() / 3) + 3 <= usize::MAX,
    ensures
        text@ == base64_url(bytes@),
        text@.len() == base64_length(bytes@.len()),
        forall|i: int| 0 <= i < text@.len() ==> is_base64_url_char(#[trigger] text@[i]),
{
    base64_url::encode(bytes)
}

} // verus!
