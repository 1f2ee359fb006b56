//! The discovery document and the response envelope.

use localauth0::jwks::Jwks;
use localauth0::openid_metadata::OpenIDMetadata;
use localauth0::response::TokenResponse;
use localauth0::Issuer;

#[test]
fn discovery_document_derives_endpoints_from_the_base_uri() {
    let jwks: Jwks = Jwks::new().unwrap();
    let jwk = jwks.random_jwk().unwrap();
    let issuer = Issuer("https://prima.localauth0.com/".to_string());
    let metadata: OpenIDMetadata =
        OpenIDMetadata::new(&issuer, &jwk, "http://localhost:3000");

    assert_eq!(metadata.issuer, "https://prima.localauth0.com/");
    assert_eq!(
        metadata.authorization_endpoint,
        "http://localhost:3000/oauth/login"
    );
    assert_eq!(metadata.token_endpoint, "http://localhost:3000/oauth/token");
    assert_eq!(
        metadata.jwks_uri,
        "http://localhost:3000/.well-known/jwks.json"
    );
    assert_eq!(
        metadata.response_types_supported,
        vec!["token id_token".to_string()]
    );
    assert_eq!(
        metadata.subject_types_supported,
        vec!["public".to_string()]
    );
    assert_eq!(
        metadata.id_token_signing_alg_values_supported,
        vec!["RS256".to_string()]
    );
}

#[test]
fn token_response_envelope_carries_fixed_type_and_lifetime() {
    let response = TokenResponse::new(
        "the-access-token".to_string(),
        "the-id-token".to_string(),
        None,
    );
    assert_eq!(response.access_token(), "the-access-token");
    assert_eq!(response.id_token(), "the-id-token");
    assert_eq!(response.scope, "");
    assert_eq!(response.expires_in, 86400);
    assert_eq!(response.token_type, "Bearer");

    let scoped = TokenResponse::new(
        "a".to_string(),
        "b".to_string(),
        Some("x:read x:write".to_string()),
    );
    assert_eq!(scoped.scope, "x:read x:write");
}
