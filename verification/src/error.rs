//! The error taxonomy of the authority.
//!
//! Every fallible operation returns one of these variants; verification-time
//! conditions (missing kid, unknown kid, bad signature, expiry, audience) are
//! kept distinguishable from one another and from crypto failures.

use vstd::prelude::*;

verus! {

/// An error of the token authority.
#[derive(Debug, PartialEq, Eq)]
pub enum Error {
    /// A token names a `kid` that the current key set does not hold; carries
    /// that kid. Also the observable effect of rotation and revocation on
    /// older tokens.
    UnknownKid(String),
    /// The key set holds no key at all; unreachable while the size invariant
    /// holds, checked defensively.
    EmptyJwks,
    /// A token's header carries no `kid` claim.
    JwtMissingKid,
    /// A key declares an algorithm other than RS256; carries that algorithm.
    UnsupportedAlgorithm(String),
    /// The token's signature does not verify under the selected key.
    InvalidSignature,
    /// The token's `exp` claim lies in the past, or `nbf` in the future.
    Expired,
    /// The token's `aud` claim is not among the expected audiences.
    InvalidAudience,
    /// The token is not three dot-separated base64url parts holding the JSON
    /// shape this authority produces.
    MalformedToken,
    /// The presented client credentials are not the accepted stub pair.
    Unauthorized,
    /// Key or certificate generation failed in the crypto library.
    Crypto,
    /// Producing a signature failed in the crypto library.
    Signing,
}

impl Error {
    /// A short, stable description of the error, for logs and HTTP bodies.
    pub fn message(&self) -> (r: String)
        ensures
            r@.len() > 0,
    {
        let s: &str = match self {
            Error::UnknownKid(_) => "provided kid is none of the well known jwks kids",
            Error::EmptyJwks => "empty jwks store",
            Error::JwtMissingKid => "provided jwt does not contain a kid",
            Error::UnsupportedAlgorithm(_) => "key algorithm is not supported",
            Error::InvalidSignature => "token signature is invalid",
            Error::Expired => "token is expired or not yet valid",
            Error::InvalidAudience => "token audience is not an expected audience",
            Error::MalformedToken => "token is not a well formed jwt",
            Error::Unauthorized => "access denied",
            Error::Crypto => "key or certificate generation failed",
            Error::Signing => "signing failed",
        };
        proof {
            reveal_strlit("provided kid is none of the well known jwks kids");
            reveal_strlit("empty jwks store");
            reveal_strlit("provided jwt does not contain a kid");
            reveal_strlit("key algorithm is not supported");
            reveal_strlit("token signature is invalid");
            reveal_strlit("token is expired or not yet valid");
            reveal_strlit("token audience is not an expected audience");
            reveal_strlit("token is not a well formed jwt");
            reveal_strlit("access denied");
            reveal_strlit("key or certificate generation failed");
            reveal_strlit("signing failed");
        }
        s.to_owned()
    }
}

} // verus!
