//! A local stand-in for an OpenID-Connect / OAuth2 identity provider.
//!
//! The crate keeps a rotating set of RSA signing keys, assembles and signs
//! access tokens and ID tokens as compact JWTs, verifies such tokens against
//! the current key set, and builds the OIDC discovery metadata. Key material
//! comes from `openssl`, signatures from `jsonwebtoken`, and the base64url
//! framing from `base64-url`; everything around those calls — claim assembly,
//! JSON serialization, token framing and validation rules — is verified.

use vstd::prelude::*;

pub mod app_data;
pub mod audience;
pub mod b64;
pub mod claims;
pub mod config;
pub mod crypto;
pub mod defaults;
pub mod error;
pub mod id_token;
pub mod issuer_logic;
pub mod json;
pub mod jwks;
pub mod jwt;
pub mod openid_metadata;
pub mod request;
pub mod response;
pub mod store;
pub mod text;
pub mod user_info;

verus! {

/// Token type placed in every token response.
pub const BEARER: &'static str = "Bearer";

/// The only client id the stub authority accepts.
pub const CLIENT_ID_VALUE: &'static str = "client_id";

/// The only client secret the stub authority accepts.
pub const CLIENT_SECRET_VALUE: &'static str = "client_secret";

/// The issuer string placed in every token.
#[derive(Debug)]
pub struct Issuer(pub String);

impl Clone for Issuer {
    /// A clone denotes the same issuer.
    fn clone(&self) -> (r: Self)
        ensures
            r.0@ == self.0@,
    {
        Issuer(self.0.clone())
    }
}

/// The subject string placed in access tokens.
#[derive(Debug)]
pub struct Subject(pub String);

impl Clone for Subject {
    /// A clone denotes the same subject.
    fn clone(&self) -> (r: Self)
        ensures
            r.0@ == self.0@,
    {
        Subject(self.0.clone())
    }
}

} // verus!
