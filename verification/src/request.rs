//! The request bodies the authority accepts, as plain values. Decoding them
//! from HTTP JSON or form bodies happens outside the library.

use vstd::prelude::*;

use crate::config::CustomField;

verus! {

/// A client-credentials token request: the audience travels in the body.
#[derive(Debug)]
pub struct ClientCredentialsTokenRequest {
    pub client_id: String,
    pub client_secret: String,
    pub audience: String,
}

/// An authorization-code token request: the audience is looked up from the
/// previously issued code.
#[derive(Debug)]
pub struct AuthorizationCodeTokenRequest {
    pub client_id: String,
    pub client_secret: String,
    pub code: String,
    pub nonce: Option<String>,
    pub redirect_uri: Option<String>,
}

/// A token request in either supported grant flavour.
#[derive(Debug)]
pub enum TokenRequest {
    AuthorizationCode(AuthorizationCodeTokenRequest),
    ClientCredentials(ClientCredentialsTokenRequest),
}

/// Sets the permission list for one audience.
#[derive(Debug)]
pub struct PermissionsForAudienceRequest {
    pub audience: String,
    pub permissions: Vec<String>,
}

/// Replaces the configured custom claims wholesale.
#[derive(Debug)]
pub struct UpdateCustomClaimsRequest {
    pub custom_claims: Vec<CustomField>,
}

/// Starts a login for an audience; answered with an authorization code.
#[derive(Debug)]
pub struct LoginRequest {
    pub audience: String,
}

/// A sparse user-info update: a set field replaces the current value, an
/// unset field leaves it unchanged.
#[derive(Debug)]
pub struct UpdateUserInfoRequest {
    pub subject: Option<String>,
    pub name: Option<String>,
    pub given_name: Option<String>,
    pub family_name: Option<String>,
    pub nickname: Option<String>,
    pub locale: Option<String>,
    pub gender: Option<String>,
    pub birthdate: Option<String>,
    pub email: Option<String>,
    pub email_verified: Option<bool>,
    pub picture: Option<String>,
    pub updated_at: Option<String>,
    pub custom_fields: Option<Vec<CustomField>>,
}

} // verus!
