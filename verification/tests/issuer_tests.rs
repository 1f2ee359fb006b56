//! Token issuance end to end: the response envelope, both grants, the stub
//! credentials, and the full issue-then-verify scenario.

use localauth0::app_data::AppData;
use localauth0::claims::GrantType;
use localauth0::config::{AccessToken, Audience, Config, CustomField, CustomFieldValue, Http, Https, User};
use localauth0::error::Error;
use localauth0::issuer_logic::{jwt_for_client_credentials, login, new_token_response, token};
use localauth0::json::{entries_get, JsonValue};
use localauth0::request::{
    AuthorizationCodeTokenRequest, ClientCredentialsTokenRequest, LoginRequest, TokenRequest,
};
use localauth0::response::TokenResponse;
use localauth0::user_info::UserInfo;
use localauth0::CLIENT_ID_VALUE;

fn test_config() -> Config {
    Config {
        issuer: "https://prima.localauth0.com/".to_string(),
        subject: "google-apps|developers@prima.it".to_string(),
        user_info: UserInfo {
            sub: "google-apps|developers@prima.it".to_string(),
            name: "Local".to_string(),
            given_name: "Locie".to_string(),
            family_name: "Auth0".to_string(),
            nickname: "locie.auth0".to_string(),
            locale: "en".to_string(),
            gender: "none".to_string(),
            birthdate: "2022-02-11".to_string(),
            email: "developers@prima.it".to_string(),
            email_verified: true,
            picture: "https://github.com/primait/localauth0/blob/6f71c9318250219a9d03fb72afe4308b8824aef7/web/assets/static/media/localauth0.png".to_string(),
            updated_at: "2022-11-11T11:00:00.000Z".to_string(),
            custom_fields: Some(vec![CustomField::new(
                "roles".to_string(),
                CustomFieldValue::List(vec!["fake:auth".to_string()]),
            )]),
        },
        audience: vec![
            Audience {
                name: "audience1".to_string(),
                permissions: vec![
                    "audience1:permission1".to_string(),
                    "audience1:permission2".to_string(),
                ],
            },
            Audience {
                name: "audience2".to_string(),
                permissions: vec!["audience2:permission1".to_string()],
            },
        ],
        user: Vec::<User>::new(),
        access_token: AccessToken {
            custom_claims: vec![CustomField::new(
                "at_custom_claims_str".to_string(),
                CustomFieldValue::Text("str".to_string()),
            )],
        },
        http: Http { port: 3000 },
        https: Https { port: 3001 },
    }
}

#[test]
fn new_token_response_should_return_an_access_token_and_an_id_token() {
    let config: Config = test_config();
    let app_data: AppData = AppData::new(&config).unwrap();
    let audience = "audience2";
    let grant_type = GrantType::AuthorizationCode;
    let nonce = Some("nonce".to_string());

    let token_response: TokenResponse =
        new_token_response(&app_data, audience, grant_type, nonce).unwrap();

    let access_token: &str = token_response.access_token();
    let jwks = app_data.jwks().get().unwrap();
    let claims = jwks
        .parse(access_token, &vec![audience.to_string()])
        .expect("failed to parse access_token");

    assert_eq!(
        entries_get(&claims, "aud"),
        Some(JsonValue::Str("audience2".to_string()))
    );
    assert!(entries_get(&claims, "iat").is_some());
    assert!(entries_get(&claims, "exp").is_some());
    assert!(entries_get(&claims, "scope").is_some());
    assert_eq!(
        entries_get(&claims, "iss"),
        Some(JsonValue::Str("https://prima.localauth0.com/".to_string()))
    );
    assert_eq!(
        entries_get(&claims, "gty"),
        Some(JsonValue::Str("authorization_code".to_string()))
    );
    assert_eq!(
        entries_get(&claims, "permissions"),
        Some(JsonValue::StrList(vec!["audience2:permission1".to_string()]))
    );
    assert_eq!(
        entries_get(&claims, "at_custom_claims_str"),
        Some(JsonValue::Str("str".to_string()))
    );

    let id_token: &str = token_response.id_token();
    let claims = jwks
        .parse(id_token, &vec![CLIENT_ID_VALUE.to_string()])
        .expect("failed to parse id_token");

    assert_eq!(
        entries_get(&claims, "sub"),
        Some(JsonValue::Str("google-apps|developers@prima.it".to_string()))
    );
    assert_eq!(
        entries_get(&claims, "aud"),
        Some(JsonValue::Str(CLIENT_ID_VALUE.to_string()))
    );
    assert!(entries_get(&claims, "iat").is_some());
    assert!(entries_get(&claims, "exp").is_some());
    assert_eq!(
        entries_get(&claims, "iss"),
        Some(JsonValue::Str("https://prima.localauth0.com/".to_string()))
    );
    assert_eq!(
        entries_get(&claims, "name"),
        Some(JsonValue::Str("Local".to_string()))
    );
    assert_eq!(
        entries_get(&claims, "given_name"),
        Some(JsonValue::Str("Locie".to_string()))
    );
    assert_eq!(
        entries_get(&claims, "family_name"),
        Some(JsonValue::Str("Auth0".to_string()))
    );
    assert_eq!(
        entries_get(&claims, "nickname"),
        Some(JsonValue::Str("locie.auth0".to_string()))
    );
    assert_eq!(
        entries_get(&claims, "locale"),
        Some(JsonValue::Str("en".to_string()))
    );
    assert_eq!(
        entries_get(&claims, "gender"),
        Some(JsonValue::Str("none".to_string()))
    );
    assert_eq!(
        entries_get(&claims, "birthdate"),
        Some(JsonValue::Str("2022-02-11".to_string()))
    );
    assert_eq!(
        entries_get(&claims, "email"),
        Some(JsonValue::Str("developers@prima.it".to_string()))
    );
    assert_eq!(entries_get(&claims, "email_verified"), Some(JsonValue::Bool(true)));
    assert_eq!(
        entries_get(&claims, "picture"),
        Some(JsonValue::Str("https://github.com/primait/localauth0/blob/6f71c9318250219a9d03fb72afe4308b8824aef7/web/assets/static/media/localauth0.png".to_string()))
    );
    assert_eq!(
        entries_get(&claims, "nonce"),
        Some(JsonValue::Str("nonce".to_string()))
    );
}

#[test]
fn end_to_end_client_credentials_scenario() {
    let mut config: Config = test_config();
    config.audience.push(Audience {
        name: "payments".to_string(),
        permissions: vec!["payments:charge".to_string()],
    });
    config.access_token = AccessToken {
        custom_claims: Vec::new(),
    };
    let app_data: AppData = AppData::new(&config).unwrap();

    let request = TokenRequest::ClientCredentials(ClientCredentialsTokenRequest {
        client_id: "client_id".to_string(),
        client_secret: "client_secret".to_string(),
        audience: "payments".to_string(),
    });
    let response: TokenResponse = token(&app_data, request).unwrap();
    assert_eq!(response.token_type, "Bearer");
    assert_eq!(response.expires_in, 86400);

    let jwks = app_data.jwks().get().unwrap();
    let claims = jwks
        .parse(response.access_token(), &vec!["payments".to_string()])
        .unwrap();
    assert_eq!(
        entries_get(&claims, "aud"),
        Some(JsonValue::Str("payments".to_string()))
    );
    assert_eq!(
        entries_get(&claims, "gty"),
        Some(JsonValue::Str("client_credentials".to_string()))
    );
    assert_eq!(
        entries_get(&claims, "permissions"),
        Some(JsonValue::StrList(vec!["payments:charge".to_string()]))
    );
    let iat = match entries_get(&claims, "iat") {
        Some(JsonValue::Int(x)) => x,
        other => panic!("iat missing: {:?}", other),
    };
    let exp = match entries_get(&claims, "exp") {
        Some(JsonValue::Int(x)) => x,
        other => panic!("exp missing: {:?}", other),
    };
    assert_eq!(exp - iat, 60000);
}

#[test]
fn wrong_credentials_are_denied() {
    let app_data: AppData = AppData::new(&test_config()).unwrap();
    let request = ClientCredentialsTokenRequest {
        client_id: "client_id".to_string(),
        client_secret: "wrong".to_string(),
        audience: "audience1".to_string(),
    };
    let outcome = jwt_for_client_credentials(&app_data, &request);
    assert_eq!(outcome.unwrap_err(), Error::Unauthorized);
}

#[test]
fn authorization_code_flow_issues_tokens_for_the_logged_in_audience() {
    let app_data: AppData = AppData::new(&test_config()).unwrap();
    let login_response = login(
        &app_data,
        LoginRequest {
            audience: "audience1".to_string(),
        },
    )
    .unwrap();
    assert_eq!(login_response.code.len(), 36);

    let request = TokenRequest::AuthorizationCode(AuthorizationCodeTokenRequest {
        client_id: "client_id".to_string(),
        client_secret: "client_secret".to_string(),
        code: login_response.code,
        nonce: Some("n-0S6_WzA2Mj".to_string()),
        redirect_uri: None,
    });
    let response: TokenResponse = token(&app_data, request).unwrap();
    let jwks = app_data.jwks().get().unwrap();
    let claims = jwks
        .parse(response.access_token(), &vec!["audience1".to_string()])
        .unwrap();
    assert_eq!(
        entries_get(&claims, "aud"),
        Some(JsonValue::Str("audience1".to_string()))
    );
    let id_claims = jwks
        .parse(response.id_token(), &vec![CLIENT_ID_VALUE.to_string()])
        .unwrap();
    assert_eq!(
        entries_get(&id_claims, "nonce"),
        Some(JsonValue::Str("n-0S6_WzA2Mj".to_string()))
    );
}
