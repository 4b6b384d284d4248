//! Credential material: random bytes from the operating system, URL-safe
//! base64 without padding, and constant-time comparison of digests.

use base64::engine::general_purpose::URL_SAFE_NO_PAD;
use base64::Engine;
use rand::rngs::OsRng;
use rand::RngCore;
use subtle::ConstantTimeEq;
use vstd::prelude::*;

verus! {

/// `len` bytes from `rand::rngs::OsRng::fill_bytes`. Only the length is
/// stated: the bytes are whatever the operating system's generator gave.
/// `fill_bytes` panics where the generator fails.
#[verifier::external_body]
pub(crate) fn os_random_bytes(len: usize) -> (bytes: Vec<u8>)
    ensures
        bytes@.len() == len,
{
    let mut bytes = vec![0u8; len];
    OsRng.fill_bytes(&mut bytes);
    bytes
}

/// The text that the `URL_SAFE_NO_PAD` engine of `base64` encodes `bytes` to.
pub uninterp spec fn base64_url_encoding(bytes: Seq<u8>) -> Seq<char>;

/// What the `URL_SAFE_NO_PAD` engine of `base64` decodes `text` to, `None`
/// where it rejects the text.
pub uninterp spec fn base64_url_decoding(text: Seq<char>) -> Option<Seq<u8>>;

/// `URL_SAFE_NO_PAD.encode(bytes)` (`base64::Engine::encode`). Besides naming
/// the result, it states its length without padding (four characters for
/// every three bytes, two or three for a last one or two) and the round trip
/// that the engine keeps: decoding the encoding with the same engine gives
/// the bytes back.
#[verifier::external_body]
pub(crate) fn base64_url_encode(bytes: &[u8]) -> (text: String)
    ensures
        text@ == base64_url_encoding(bytes@),
        text@.len() == (4 * bytes@.len() + 2) / 3,
        base64_url_decoding(text@) == Some(bytes@),
{
    URL_SAFE_NO_PAD.encode(bytes)
}

/// `URL_SAFE_NO_PAD.decode(text)` (`base64::Engine::decode`), with the
/// `DecodeError` mapped to `None`.
#[verifier::external_body]
pub(crate) fn base64_url_decode(text: &str) -> (bytes: Option<Vec<u8>>)
    ensures
        bytes matches Some(v) ==> base64_url_decoding(text@) == Some(v@),
        bytes is None ==> base64_url_decoding(text@) is None,
{
    match URL_SAFE_NO_PAD.decode(text) {
        Ok(v) => Some(v),
        Err(_) => None,
    }
}

/// `subtle::ConstantTimeEq::ct_eq` on two digests, read as a `bool`: true
/// exactly when the two byte strings are equal.
#[verifier::external_body]
pub(crate) fn constant_time_eq(a: &[u8; 32], b: &[u8; 32]) -> (eq: bool)
    ensures
        eq == (a@ == b@),
{
    bool::from(a.ct_eq(b))
}

/// The first 16 bytes of `v` as an array.
pub fn array16(v: &Vec<u8>) -> (a: [u8; 16])
    requires
        v.len() == 16,
    ensures
        a@ == v@,
{
    let mut a = [0u8; 16];
    let mut i: usize = 0;
    while i < 16
        invariant
            v.len() == 16,
            i <= 16,
            forall|j: int| 0 <= j < i ==> a@[j] == v@[j],
        decreases 16 - i,
    {
        a[i] = v[i];
        i = i + 1;
    }
    assert(a@ =~= v@);
    a
}

/// The first 32 bytes of `v` as an array.
pub fn array32(v: &Vec<u8>) -> (a: [u8; 32])
    requires
        v.len() == 32,
    ensures
        a@ == v@,
{
    let mut a = [0u8; 32];
    let mut i: usize = 0;
    while i < 32
        invariant
            v.len() == 32,
            i <= 32,
            forall|j: int| 0 <= j < i ==> a@[j] == v@[j],
        decreases 32 - i,
    {
        a[i] = v[i];
        i = i + 1;
    }
    assert(a@ =~= v@);
    a
}

} // verus!
