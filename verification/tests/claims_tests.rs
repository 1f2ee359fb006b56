//! Claim assembly and serialization: scope derivation, custom-claim
//! merging, and the exact JSON shape of user-info and ID-token payloads.

use localauth0::claims::{Claims, GrantType, TOKEN_LIFETIME_SECONDS};
use localauth0::config::{CustomField, CustomFieldValue};
use localauth0::id_token::IdTokenClaims;
use localauth0::json::{entries_get, serialize_object, JsonValue};
use localauth0::jwks::{Jwk, Jwks};
use localauth0::user_info::UserInfo;
use localauth0::Issuer;

fn test_user_info() -> UserInfo {
    UserInfo {
        sub: "subject".to_string(),
        name: "name".to_string(),
        given_name: "given_name".to_string(),
        family_name: "family_name".to_string(),
        nickname: "nickname".to_string(),
        locale: "en".to_string(),
        gender: "gender".to_string(),
        birthdate: "birthdate".to_string(),
        email: "email".to_string(),
        email_verified: true,
        picture: "picture".to_string(),
        updated_at: "2022-11-11T11:00:00.000Z".to_string(),
        custom_fields: None,
    }
}

#[test]
fn scope_is_the_space_joined_permission_list() {
    let claims: Claims = Claims::new(
        "svc".to_string(),
        vec!["svc:read".to_string(), "svc:write".to_string()],
        "issuer".to_string(),
        "subject".to_string(),
        GrantType::ClientCredentials,
        vec![],
    );
    assert_eq!(claims.scope(), "svc:read svc:write");
    assert_eq!(
        claims.permissions,
        vec!["svc:read".to_string(), "svc:write".to_string()]
    );
    let iat: i64 = claims.iat.unwrap();
    assert_eq!(claims.exp.unwrap(), iat + TOKEN_LIFETIME_SECONDS);
    assert_eq!(claims.nbf.unwrap(), iat);
    assert_eq!(claims.jti.len(), 36);
}

#[test]
fn use_custom_claims_test() {
    let jwks: Jwks = Jwks::new().unwrap();
    let random_jwk: Jwk = jwks.random_jwk().unwrap();
    let custom_claims: Vec<CustomField> = vec![
        CustomField::new(
            "at_custom_claims_str".to_string(),
            CustomFieldValue::Text("my_str".to_string()),
        ),
        CustomField::new(
            "at_custom_claims_vec".to_string(),
            CustomFieldValue::List(vec!["foobar".to_string()]),
        ),
    ];

    let claims: Claims = Claims::new(
        "audience".to_string(),
        vec!["permission".to_string()],
        "issuer".to_string(),
        "subject".to_string(),
        GrantType::ClientCredentials,
        custom_claims,
    );

    let jwt: String = random_jwk.encode(&claims.to_entries()).unwrap();
    let content = jwks
        .parse(jwt.as_str(), &vec!["audience".to_string()])
        .expect("unable to parse jwt");
    assert_eq!(
        entries_get(&content, "at_custom_claims_str"),
        Some(JsonValue::Str("my_str".to_string()))
    );
    assert_eq!(
        entries_get(&content, "at_custom_claims_vec"),
        Some(JsonValue::StrList(vec!["foobar".to_string()]))
    );
}

#[test]
fn duplicated_custom_claim_keeps_the_last_one() {
    let jwks: Jwks = Jwks::new().unwrap();
    let random_jwk: Jwk = jwks.random_jwk().unwrap();
    let custom_claims: Vec<CustomField> = vec![
        CustomField::new(
            "at_custom_claims_str".to_string(),
            CustomFieldValue::Text("my-str-1".to_string()),
        ),
        CustomField::new(
            "at_custom_claims_str".to_string(),
            CustomFieldValue::Text("my-str-2".to_string()),
        ),
    ];

    let claims: Claims = Claims::new(
        "audience".to_string(),
        vec!["permission".to_string()],
        "issuer".to_string(),
        "subject".to_string(),
        GrantType::ClientCredentials,
        custom_claims,
    );

    let jwt: String = random_jwk.encode(&claims.to_entries()).unwrap();
    let result = jwks
        .parse(jwt.as_str(), &vec!["audience".to_string()])
        .unwrap();
    assert_eq!(
        entries_get(&result, "at_custom_claims_str"),
        Some(JsonValue::Str("my-str-2".to_string()))
    );
}

#[test]
fn user_info_serialization() {
    let mut user_info: UserInfo = test_user_info();
    user_info.custom_fields = Some(vec![
        CustomField::new(
            "custom_field_str".to_string(),
            CustomFieldValue::Text("str".to_string()),
        ),
        CustomField::new(
            "custom_field_vec".to_string(),
            CustomFieldValue::List(vec!["vec".to_string()]),
        ),
    ]);

    let json: String = serialize_object(&user_info.to_entries());
    let value: serde_json::Value = serde_json::from_str(json.as_str()).unwrap();

    let expected: serde_json::Value = serde_json::from_str(
        "{\"sub\":\"subject\",\"name\":\"name\",\"given_name\":\"given_name\",\
         \"family_name\":\"family_name\",\"nickname\":\"nickname\",\"locale\":\"en\",\
         \"gender\":\"gender\",\"birthdate\":\"birthdate\",\"email\":\"email\",\
         \"email_verified\":true,\"picture\":\"picture\",\
         \"updated_at\":\"2022-11-11T11:00:00.000Z\",\"custom_field_str\":\"str\",\
         \"custom_field_vec\":[\"vec\"]}",
    )
    .unwrap();

    assert_eq!(value, expected);
}

#[test]
fn id_token_serialization() {
    let issuer = Issuer("issuer".to_string());
    let audience = "audience".to_string();
    let nonce = Some("nonce".to_string());
    let now: i64 = chrono::Utc::now().timestamp();

    let id_token: IdTokenClaims =
        IdTokenClaims::new_at(&issuer, audience.clone(), test_user_info(), nonce.clone(), now);
    let json: String = serialize_object(&id_token.to_entries());
    let value: serde_json::Value = serde_json::from_str(json.as_str()).unwrap();

    let expected_text = format!(
        "{{\"iss\":\"issuer\",\"aud\":\"audience\",\"sid\":\"session_id\",\
         \"sub\":\"subject\",\"name\":\"name\",\"given_name\":\"given_name\",\
         \"family_name\":\"family_name\",\"nickname\":\"nickname\",\"locale\":\"en\",\
         \"gender\":\"gender\",\"birthdate\":\"birthdate\",\"email\":\"email\",\
         \"email_verified\":true,\"picture\":\"picture\",\
         \"updated_at\":\"2022-11-11T11:00:00.000Z\",\"iat\":{},\"exp\":{},\
         \"nonce\":\"nonce\"}}",
        now,
        now + 60000
    );
    let expected: serde_json::Value = serde_json::from_str(expected_text.as_str()).unwrap();

    assert_eq!(value, expected);
}

#[test]
fn custom_claim_reusing_a_fixed_name_wins_when_read_back() {
    // A custom claim may even reuse a fixed claim name; serialization keeps
    // both entries in order, custom ones after the fixed ones, so the
    // custom value wins when the object is decoded into a map.
    let claims: Claims = Claims::new(
        "audience".to_string(),
        vec![],
        "issuer".to_string(),
        "subject".to_string(),
        GrantType::ClientCredentials,
        vec![CustomField::new(
            "iss".to_string(),
            CustomFieldValue::Text("shadow".to_string()),
        )],
    );
    let json: String = serialize_object(&claims.to_entries());
    let value: serde_json::Value = serde_json::from_str(json.as_str()).unwrap();
    assert_eq!(value.get("iss").unwrap(), "shadow");
}

#[test]
fn grant_type_wire_names() {
    assert_eq!(GrantType::ClientCredentials.as_str(), "client_credentials");
    assert_eq!(GrantType::AuthorizationCode.as_str(), "authorization_code");
}
