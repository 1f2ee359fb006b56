//! The OIDC discovery document: the issuer, the endpoints derived from a
//! base URI and the fixed relative paths, and the algorithm of one
//! representative current signing key.

use vstd::prelude::*;

use crate::jwks::Jwk;
use crate::response::TokenResponse;
use crate::Issuer;

verus! {

/// The relative path of the login endpoint.
pub const LOGIN_ENDPOINT: &'static str = "/oauth/login";

/// The relative path of the token endpoint.
pub const TOKEN_ENDPOINT: &'static str = "/oauth/token";

/// The relative path of the published key set.
pub const JWKS_ENDPOINT: &'static str = "/.well-known/jwks.json";

/// The discovery metadata of the authority.
#[derive(Debug)]
pub struct OpenIDMetadata {
    pub issuer: String,
    pub authorization_endpoint: String,
    pub token_endpoint: String,
    pub jwks_uri: String,
    pub response_types_supported: Vec<String>,
    pub subject_types_supported: Vec<String>,
    pub id_token_signing_alg_values_supported: Vec<String>,
}

/// The base URI with an endpoint path appended.
fn endpoint_to_url(base_uri: &str, endpoint: &str) -> (r: String)
    ensures
        r@ == base_uri@ + endpoint@,
{
    let mut out: String = base_uri.to_owned();
    out.append(endpoint);
    out
}

impl OpenIDMetadata {
    /// Assembles the discovery document: endpoints under the base URI, the
    /// fixed response and subject types, and the representative key's
    /// algorithm.
    pub fn new(issuer: &Issuer, random_jwk: &Jwk, base_uri: &str) -> (r: OpenIDMetadata)
        ensures
            r.issuer@ == issuer.0@,
            r.authorization_endpoint@ == base_uri@ + ("/oauth/login")@,
            r.token_endpoint@ == base_uri@ + ("/oauth/token")@,
            r.jwks_uri@ == base_uri@ + ("/.well-known/jwks.json")@,
            r.response_types_supported.deep_view() =~= seq![("token id_token")@],
            r.subject_types_supported.deep_view() =~= seq![("public")@],
            r.id_token_signing_alg_values_supported.deep_view() =~= seq![random_jwk@.alg],
    {
        let authorization_endpoint: String = endpoint_to_url(base_uri, LOGIN_ENDPOINT);
        let token_endpoint: String = endpoint_to_url(base_uri, TOKEN_ENDPOINT);
        let jwks_uri: String = endpoint_to_url(base_uri, JWKS_ENDPOINT);
        let mut subject_types: Vec<String> = Vec::new();
        subject_types.push(("public").to_owned());
        let mut algs: Vec<String> = Vec::new();
        algs.push(random_jwk.alg().to_owned());
        OpenIDMetadata {
            issuer: issuer.0.clone(),
            authorization_endpoint,
            token_endpoint,
            jwks_uri,
            response_types_supported: TokenResponse::response_types_supported(),
            subject_types_supported: subject_types,
            id_token_signing_alg_values_supported: algs,
        }
    }
}

} // verus!
