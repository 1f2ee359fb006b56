//! Key-set behaviour: generation, lookup, rotation, revocation, and the
//! verification outcomes they cause.

use localauth0::claims::{Claims, GrantType};
use localauth0::error::Error;
use localauth0::json::{entries_get, JsonValue};
use localauth0::jwks::{Jwk, Jwks};
use localauth0::store::JwksStore;

fn simple_claims(audience: &str, permission: &str) -> Claims {
    Claims::new(
        audience.to_string(),
        vec![permission.to_string()],
        "issuer".to_string(),
        "subject".to_string(),
        GrantType::ClientCredentials,
        vec![],
    )
}

#[test]
fn its_possible_to_generate_jwks_and_parse_claims_using_given_jwks_test() {
    let jwk_store: JwksStore = JwksStore::new().unwrap();
    let audience: &str = "audience";
    let permission: &str = "permission";
    let issuer: &str = "issuer";

    let jwks: Jwks = jwk_store.get().unwrap();
    let random_jwk: Jwk = jwks.random_jwk().unwrap();

    let claims: Claims = simple_claims(audience, permission);
    assert!(claims.has_permission(permission));

    let jwt: String = random_jwk.encode(&claims.to_entries()).unwrap();
    let result = jwks.parse(jwt.as_str(), &vec![audience.to_string()]);
    assert!(result.is_ok());

    let entries = result.unwrap();
    assert_eq!(
        entries_get(&entries, "aud"),
        Some(JsonValue::Str(audience.to_string()))
    );
    assert_eq!(
        entries_get(&entries, "permissions"),
        Some(JsonValue::StrList(vec![permission.to_string()]))
    );
    assert_eq!(
        entries_get(&entries, "iss"),
        Some(JsonValue::Str(issuer.to_string()))
    );
    assert_eq!(
        entries_get(&entries, "gty"),
        Some(JsonValue::Str("client_credentials".to_string()))
    );
}

#[test]
fn kid_values_are_pairwise_distinct() {
    let jwks: Jwks = Jwks::new().unwrap();
    assert_eq!(jwks.keys.len(), 3);
    let k0 = jwks.keys[0].kid.clone();
    let k1 = jwks.keys[1].kid.clone();
    let k2 = jwks.keys[2].kid.clone();
    assert_ne!(k0, k1);
    assert_ne!(k0, k2);
    assert_ne!(k1, k2);
}

#[test]
fn rotation_and_revocation_keep_exactly_three_keys() {
    let jwks: Jwks = Jwks::new().unwrap();
    assert_eq!(jwks.keys.len(), 3);
    let rotated: Jwks = jwks.rotate_keys().unwrap();
    assert_eq!(rotated.keys.len(), 3);
    let revoked: Jwks = rotated.revoke_keys().unwrap();
    assert_eq!(revoked.keys.len(), 3);
}

#[test]
fn rotation_keeps_the_two_newest_and_prepends_a_fresh_key() {
    let jwks: Jwks = Jwks::new().unwrap();
    let rotated: Jwks = jwks.rotate_keys().unwrap();
    assert_eq!(rotated.keys[1].kid, jwks.keys[0].kid);
    assert_eq!(rotated.keys[2].kid, jwks.keys[1].kid);
    for old in jwks.keys.iter() {
        assert_ne!(rotated.keys[0].kid, old.kid);
    }
}

#[test]
fn rotation_invalidates_a_token_signed_by_the_oldest_key() {
    let jwks: Jwks = Jwks::new().unwrap();
    let oldest: &Jwk = &jwks.keys[2];
    let claims: Claims = simple_claims("audience", "permission");
    let jwt: String = oldest.encode(&claims.to_entries()).unwrap();

    // Before rotation the token verifies.
    assert!(jwks.parse(jwt.as_str(), &vec!["audience".to_string()]).is_ok());

    let rotated: Jwks = jwks.rotate_keys().unwrap();
    let outcome = rotated.parse(jwt.as_str(), &vec!["audience".to_string()]);
    assert_eq!(outcome.unwrap_err(), Error::UnknownKid(oldest.kid.clone()));
}

#[test]
fn revocation_invalidates_every_prior_key() {
    let jwks: Jwks = Jwks::new().unwrap();
    let revoked: Jwks = jwks.revoke_keys().unwrap();
    for old in jwks.keys.iter() {
        for fresh in revoked.keys.iter() {
            assert_ne!(old.kid, fresh.kid);
        }
    }
    let claims: Claims = simple_claims("audience", "permission");
    for old in jwks.keys.iter() {
        let jwt: String = old.encode(&claims.to_entries()).unwrap();
        let outcome = revoked.parse(jwt.as_str(), &vec!["audience".to_string()]);
        assert_eq!(outcome.unwrap_err(), Error::UnknownKid(old.kid.clone()));
    }
}

#[test]
fn audience_mismatch_is_rejected() {
    let jwks: Jwks = Jwks::new().unwrap();
    let jwk: Jwk = jwks.random_jwk().unwrap();
    let claims: Claims = simple_claims("a", "permission");
    let jwt: String = jwk.encode(&claims.to_entries()).unwrap();
    let outcome = jwks.parse(jwt.as_str(), &vec!["b".to_string()]);
    assert_eq!(outcome.unwrap_err(), Error::InvalidAudience);
}

#[test]
fn empty_audience_list_skips_audience_validation() {
    let jwks: Jwks = Jwks::new().unwrap();
    let jwk: Jwk = jwks.random_jwk().unwrap();
    let claims: Claims = simple_claims("a", "permission");
    let jwt: String = jwk.encode(&claims.to_entries()).unwrap();
    assert!(jwks.parse(jwt.as_str(), &Vec::new()).is_ok());
}

#[test]
fn malformed_tokens_are_rejected() {
    let jwks: Jwks = Jwks::new().unwrap();
    let auds: Vec<String> = vec!["audience".to_string()];
    assert_eq!(
        jwks.parse("nota.token", &auds).unwrap_err(),
        Error::MalformedToken
    );
    assert_eq!(jwks.parse("", &auds).unwrap_err(), Error::MalformedToken);
    assert_eq!(
        jwks.parse("a.b.c.d", &auds).unwrap_err(),
        Error::MalformedToken
    );
}

#[test]
fn header_without_kid_is_rejected() {
    let jwks: Jwks = Jwks::new().unwrap();
    let header = base64_url::encode("{\"alg\":\"RS256\"}");
    let payload = base64_url::encode("{}");
    let token = format!("{}.{}.c2ln", header, payload);
    let outcome = jwks.parse(token.as_str(), &Vec::new());
    assert_eq!(outcome.unwrap_err(), Error::JwtMissingKid);
}

#[test]
fn key_with_foreign_algorithm_is_rejected() {
    let jwks: Jwks = Jwks::new().unwrap();
    let jwk: Jwk = jwks.random_jwk().unwrap();
    let claims: Claims = simple_claims("audience", "permission");
    let jwt: String = jwk.encode(&claims.to_entries()).unwrap();

    let mut altered: Jwk = jwk.clone();
    altered.alg = "HS256".to_string();
    let altered_set = Jwks { keys: vec![altered] };
    let outcome = altered_set.parse(jwt.as_str(), &Vec::new());
    assert_eq!(
        outcome.unwrap_err(),
        Error::UnsupportedAlgorithm("HS256".to_string())
    );
}

#[test]
fn token_signed_by_another_key_fails_signature_validation() {
    let jwks: Jwks = Jwks::new().unwrap();
    let signer: Jwk = jwks.keys[0].clone();
    let claims: Claims = simple_claims("audience", "permission");
    let jwt: String = signer.encode(&claims.to_entries()).unwrap();

    // A set whose key carries the signer's kid but another key pair.
    let mut impostor: Jwk = Jwk::new().unwrap();
    impostor.kid = signer.kid.clone();
    let impostor_set = Jwks { keys: vec![impostor] };
    let outcome = impostor_set.parse(jwt.as_str(), &Vec::new());
    assert_eq!(outcome.unwrap_err(), Error::InvalidSignature);
}

#[test]
fn expired_token_is_rejected() {
    let jwks: Jwks = Jwks::new().unwrap();
    let jwk: Jwk = jwks.random_jwk().unwrap();
    let claims: Claims = simple_claims("audience", "permission");
    let exp: i64 = claims.exp.unwrap();
    let jwt: String = jwk.encode(&claims.to_entries()).unwrap();

    let fine = jwks.parse_at(jwt.as_str(), &Vec::new(), exp);
    assert!(fine.is_ok());
    let stale = jwks.parse_at(jwt.as_str(), &Vec::new(), exp + 1);
    assert_eq!(stale.unwrap_err(), Error::Expired);
}

#[test]
fn token_before_nbf_is_rejected() {
    let jwks: Jwks = Jwks::new().unwrap();
    let jwk: Jwk = jwks.random_jwk().unwrap();
    let claims: Claims = simple_claims("audience", "permission");
    let nbf: i64 = claims.nbf.unwrap();
    let jwt: String = jwk.encode(&claims.to_entries()).unwrap();
    let early = jwks.parse_at(jwt.as_str(), &Vec::new(), nbf - 1);
    assert_eq!(early.unwrap_err(), Error::Expired);
}

#[test]
fn jwks_json_document_lists_public_fields_only() {
    let jwks: Jwks = Jwks::new().unwrap();
    let doc: String = jwks.to_json();
    let value: serde_json::Value = serde_json::from_str(doc.as_str()).unwrap();
    let keys = value.get("keys").unwrap().as_array().unwrap();
    assert_eq!(keys.len(), 3);
    for (i, key) in keys.iter().enumerate() {
        assert_eq!(key.get("kty").unwrap(), "RSA");
        assert_eq!(key.get("alg").unwrap(), "RS256");
        assert_eq!(key.get("use").unwrap(), "sig");
        assert_eq!(
            key.get("kid").unwrap().as_str().unwrap(),
            jwks.keys[i].kid.as_str()
        );
        assert!(key.get("n").is_some());
        assert!(key.get("e").is_some());
        let x5c = key.get("x5c").unwrap().as_array().unwrap();
        assert_eq!(x5c.len(), 1);
        // The certificate entry is standard base64 of a DER document.
        let der = base64::Engine::decode(
            &base64::engine::general_purpose::STANDARD,
            x5c[0].as_str().unwrap(),
        )
        .unwrap();
        assert_eq!(der[0], 0x30);
        assert!(key.get("private_key_pem").is_none());
    }
}

#[test]
fn issued_tokens_verify_under_jsonwebtoken_too() {
    let jwks: Jwks = Jwks::new().unwrap();
    let jwk: Jwk = jwks.random_jwk().unwrap();
    let claims: Claims = simple_claims("audience", "permission");
    let jwt: String = jwk.encode(&claims.to_entries()).unwrap();

    let header = jsonwebtoken::decode_header(jwt.as_str()).unwrap();
    assert_eq!(header.kid.as_deref(), Some(jwk.kid.as_str()));
    assert_eq!(header.alg, jsonwebtoken::Algorithm::RS256);

    let key = jsonwebtoken::DecodingKey::from_rsa_components(
        jwk.modulus(),
        jwk.exponent(),
    )
    .unwrap();
    let mut validation = jsonwebtoken::Validation::new(jsonwebtoken::Algorithm::RS256);
    validation.set_audience(&["audience"]);
    let decoded = jsonwebtoken::decode::<serde_json::Value>(jwt.as_str(), &key, &validation)
        .unwrap();
    assert_eq!(decoded.claims.get("aud").unwrap(), "audience");
    assert_eq!(decoded.claims.get("iss").unwrap(), "issuer");
}
