//! The response bodies the authority produces, as plain values.

use vstd::prelude::*;

verus! {

/// The token-endpoint response envelope: both signed tokens, the scope,
/// and the fixed lifetime and token type.
#[derive(Debug)]
pub struct TokenResponse {
    pub access_token: String,
    pub id_token: String,
    pub scope: String,
    pub expires_in: i32,
    pub token_type: String,
}

impl TokenResponse {
    /// Assembles the envelope: the given tokens, the given scope or the
    /// empty one, a fixed lifetime and the fixed `Bearer` token type.
    pub fn new(access_token: String, id_token: String, scope_opt: Option<String>) -> (r:
        TokenResponse)
        ensures
            r.access_token@ == access_token@,
            r.id_token@ == id_token@,
            r.scope@ == (match scope_opt {
                Some(s) => s@,
                None => Seq::<char>::empty(),
            }),
            r.expires_in == 86400,
            r.token_type@ == ("Bearer")@,
    {
        let scope: String = match scope_opt {
            Some(s) => s,
            None => String::new(),
        };
        TokenResponse {
            access_token,
            id_token,
            scope,
            expires_in: 86400,
            token_type: crate::BEARER.to_owned(),
        }
    }

    /// The signed access token.
    pub fn access_token(&self) -> (r: &str)
        ensures
            r@ == self.access_token@,
    {
        self.access_token.as_str()
    }

    /// The signed ID token.
    pub fn id_token(&self) -> (r: &str)
        ensures
            r@ == self.id_token@,
    {
        self.id_token.as_str()
    }

    /// The response types the authority supports.
    pub fn response_types_supported() -> (r: Vec<String>)
        ensures
            r.deep_view() =~= seq![("token id_token")@],
    {
        let mut out: Vec<String> = Vec::new();
        out.push(("token id_token").to_owned());
        out
    }
}

/// The login response: the authorization code to exchange for tokens.
#[derive(Debug)]
pub struct LoginResponse {
    pub code: String,
}

} // verus!
