//! Base64 framing used by the token encoder.
//!
//! The compact JWT form carries its header and payload base64url-encoded
//! without padding, and the key set publishes certificates base64-encoded in
//! the standard alphabet. Both encodings are deterministic functions of
//! their input; they are named here and the outside calls are trusted to
//! compute them.

use vstd::prelude::*;

use crate::error::Error;

verus! {

/// What `base64_url::encode` returns for the UTF-8 bytes of a string: its
/// padding-free base64url encoding.
pub uninterp spec fn b64u_of(s: Seq<char>) -> Seq<char>;

/// What base64url decoding followed by UTF-8 decoding returns for a string:
/// the decoded text, or nothing when the input is not a valid encoding of
/// valid UTF-8.
pub uninterp spec fn b64u_dec(s: Seq<char>) -> Option<Seq<char>>;

/// What the standard-alphabet base64 encoding returns for a byte sequence.
pub uninterp spec fn b64_std_of(b: Seq<u8>) -> Seq<char>;

/// Relies on `base64_url::encode`: the encoding is a function of the bytes
/// alone, its alphabet (`A-Z a-z 0-9 - _`) contains no dot, and decoding an
/// encoded string returns the original.
#[verifier::external_body]
pub fn b64u_encode(s: &str) -> (r: String)
    ensures
        r@ == b64u_of(s@),
        b64u_dec(r@) == Some(s@),
        forall|i: int| 0 <= i < r@.len() ==> r@[i] != '.',
{
    base64_url::encode(s)
}

/// Relies on `base64_url::decode` and `String::from_utf8`: decoding is a
/// function of the input alone; any decode or UTF-8 failure is reported as
/// a malformed token.
#[verifier::external_body]
pub fn b64u_decode_str(s: &str) -> (r: Result<String, Error>)
    ensures
        match r {
            Ok(v) => b64u_dec(s@) == Some(v@),
            Err(e) => b64u_dec(s@) is None && e == Error::MalformedToken,
        },
{
    match base64_url::decode(s) {
        Ok(bytes) => match String::from_utf8(bytes) {
            Ok(text) => Ok(text),
            Err(_) => Err(Error::MalformedToken),
        },
        Err(_) => Err(Error::MalformedToken),
    }
}

/// Relies on the `base64` crate's standard-alphabet engine: the encoding is
/// a function of the bytes alone.
#[verifier::external_body]
pub fn b64_std_encode(b: &Vec<u8>) -> (r: String)
    ensures
        r@ == b64_std_of(b@),
{
    base64::Engine::encode(&base64::engine::general_purpose::STANDARD, b)
}

} // verus!
