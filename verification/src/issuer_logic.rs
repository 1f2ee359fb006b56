//! Token issuance: from a token request to the signed response envelope.
//!
//! The grant decision, the claim assembly and the signing orchestration
//! live here; HTTP decoding and status codes stay outside. The only
//! accepted client credentials are the fixed stub values. What issuance
//! returns is pinned by [`issued_for`]: some key of the current set signed
//! both tokens, and their payloads are exactly the assembled claim sets.

use vstd::prelude::*;

use crate::app_data::AppData;
use crate::claims::{Claims, ClaimsView, GrantType, TOKEN_LIFETIME_SECONDS};
use crate::error::Error;
use crate::id_token::{IdTokenClaims, IdTokenClaimsView};
use crate::json::JsonVal;
use crate::jwks::{encode_facts, jwt_spec, JwkView};
use crate::request::{
    AuthorizationCodeTokenRequest, ClientCredentialsTokenRequest, LoginRequest, TokenRequest,
};
use crate::response::{LoginResponse, TokenResponse};
use crate::text::{join_spaces, str_eq};
use crate::user_info::{UserInfo, UserInfoView};

verus! {

/// One issued token pair, spelled out over its witnesses: the signing key,
/// the two issue instants, the permissions, custom claims and profile read
/// from the stores, and the fresh token id. Both tokens are signed by the
/// one key; the access-token payload carries the audience, the grant type,
/// the derived scope, the permissions and the lifetime window; the ID-token
/// payload carries the fixed client id as audience, the session id, the
/// profile and the echoed nonce. The encoding facts make the round-trip
/// lemma applicable to both tokens.
pub open spec fn issued_token_pair(
    access_token: Seq<char>,
    id_token: Seq<char>,
    audience: Seq<char>,
    grant_type: GrantType,
    issuer: Seq<char>,
    subject: Seq<char>,
    nonce: Option<Seq<char>>,
    key: JwkView,
    now: int,
    id_now: int,
    perms: Seq<Seq<char>>,
    custom: Seq<(Seq<char>, JsonVal)>,
    profile: UserInfoView,
    jti: Seq<char>,
) -> bool {
    let c = ClaimsView {
        iss: issuer,
        sub: subject,
        aud: audience,
        exp: Some(now + TOKEN_LIFETIME_SECONDS as int),
        nbf: Some(now),
        iat: Some(now),
        jti: jti,
        scope: join_spaces(perms),
        gty: grant_type,
        permissions: perms,
        custom_claims: custom,
    };
    let idc = IdTokenClaimsView {
        iss: issuer,
        aud: ("client_id")@,
        sid: ("session_id")@,
        user_info: profile,
        iat: Some(id_now),
        exp: Some(id_now + TOKEN_LIFETIME_SECONDS as int),
        nonce: nonce,
    };
    &&& key.wf()
    &&& access_token == jwt_spec(key.pem, key.kid, crate::json::obj_chars(c.entries()))
    &&& encode_facts(key.pem, key.kid, crate::json::obj_chars(c.entries()))
    &&& id_token == jwt_spec(key.pem, key.kid, crate::json::obj_chars(idc.entries()))
    &&& encode_facts(key.pem, key.kid, crate::json::obj_chars(idc.entries()))
}

/// What issuance returns for an audience under a grant: witnesses exist —
/// a well-formed signing key, issue instants, store-read permissions,
/// custom claims and profile, and a token id — under which the two returned
/// tokens are exactly the signed, assembled claim sets.
pub open spec fn issued_for(
    access_token: Seq<char>,
    id_token: Seq<char>,
    audience: Seq<char>,
    grant_type: GrantType,
    issuer: Seq<char>,
    subject: Seq<char>,
    nonce: Option<Seq<char>>,
) -> bool {
    exists|
        key: JwkView,
        now: int,
        id_now: int,
        perms: Seq<Seq<char>>,
        custom: Seq<(Seq<char>, JsonVal)>,
        profile: UserInfoView,
        jti: Seq<char>,
    |
        issued_token_pair(
            access_token,
            id_token,
            audience,
            grant_type,
            issuer,
            subject,
            nonce,
            key,
            now,
            id_now,
            perms,
            custom,
            profile,
            jti,
        )
}

/// The nonce as characters, when present.
pub open spec fn nonce_view(nonce: Option<String>) -> Option<Seq<char>> {
    match nonce {
        Some(n) => Some(n@),
        None => None,
    }
}

/// Whether the presented client credentials are the stub's only accepted
/// pair.
pub fn authorize_client(client_id: &str, client_secret: &str) -> (r: bool)
    ensures
        r == (client_id@ == ("client_id")@ && client_secret@ == ("client_secret")@),
{
    str_eq(client_id, crate::CLIENT_ID_VALUE) && str_eq(client_secret, crate::CLIENT_SECRET_VALUE)
}

/// Whether a token request carries the accepted credentials.
pub open spec fn request_authorized(request: TokenRequest) -> bool {
    match request {
        TokenRequest::ClientCredentials(req) => req.client_id@ == ("client_id")@
            && req.client_secret@ == ("client_secret")@,
        TokenRequest::AuthorizationCode(req) => req.client_id@ == ("client_id")@
            && req.client_secret@ == ("client_secret")@,
    }
}

/// Issues both tokens for an audience: assembles the access-token claims
/// from the audience's permissions and the configured custom claims, the
/// ID-token claims from the stored profile, signs both with one randomly
/// chosen key of the current set, and wraps them in the response envelope.
/// On success the returned tokens are exactly what [`issued_for`] states.
pub fn new_token_response(
    app_data: &AppData,
    audience: &str,
    grant_type: GrantType,
    nonce: Option<String>,
) -> (r: Result<TokenResponse, Error>)
    ensures
        r matches Ok(tr) ==> tr.expires_in == 86400 && tr.token_type@ == ("Bearer")@
            && tr.scope@.len() == 0 && issued_for(
            tr.access_token@,
            tr.id_token@,
            audience@,
            grant_type,
            app_data.issuer.0@,
            app_data.subject.0@,
            nonce_view(nonce),
        ),
        r matches Err(e) ==> (e == Error::Signing || e == Error::EmptyJwks),
{
    let ghost noncew: Option<Seq<char>> = nonce_view(nonce);
    let permissions: Vec<String> = match app_data.audiences().get_permissions(audience) {
        Ok(ps) => ps,
        Err(e) => {
            return Err(e);
        },
    };
    let custom_claims = match app_data.custom_claims().all() {
        Ok(c) => c,
        Err(e) => {
            return Err(e);
        },
    };
    let ghost permsw: Seq<Seq<char>> = permissions.deep_view();
    let ghost customw: Seq<(Seq<char>, JsonVal)> = custom_claims.deep_view();
    let claims: Claims = Claims::new(
        audience.to_owned(),
        permissions,
        app_data.issuer().0.clone(),
        app_data.subject().0.clone(),
        grant_type,
        custom_claims,
    );
    let user_info: UserInfo = match app_data.user_info().get() {
        Ok(u) => u,
        Err(e) => {
            return Err(e);
        },
    };
    let ghost profilew: UserInfoView = user_info@;
    let id_token_claims: IdTokenClaims = IdTokenClaims::new(
        app_data.issuer(),
        crate::CLIENT_ID_VALUE.to_owned(),
        user_info,
        nonce,
    );
    let jwk = match app_data.jwks().random_jwk() {
        Ok(k) => k,
        Err(e) => {
            return Err(e);
        },
    };
    let access_entries = claims.to_entries();
    let access_token: String = match jwk.encode(&access_entries) {
        Ok(t) => t,
        Err(e) => {
            return Err(e);
        },
    };
    let id_entries = id_token_claims.to_entries();
    let id_token: String = match jwk.encode(&id_entries) {
        Ok(t) => t,
        Err(e) => {
            return Err(e);
        },
    };
    let response: TokenResponse = TokenResponse::new(access_token, id_token, None);
    proof {
        let c = claims@;
        let idc = id_token_claims@;
        match c.iat {
            Some(t) => {
                match idc.iat {
                    Some(t2) => {
                        assert(c =~~= ClaimsView {
                            iss: app_data.issuer.0@,
                            sub: app_data.subject.0@,
                            aud: audience@,
                            exp: Some(t + TOKEN_LIFETIME_SECONDS as int),
                            nbf: Some(t),
                            iat: Some(t),
                            jti: c.jti,
                            scope: join_spaces(permsw),
                            gty: grant_type,
                            permissions: permsw,
                            custom_claims: customw,
                        });
                        assert(idc =~~= IdTokenClaimsView {
                            iss: app_data.issuer.0@,
                            aud: ("client_id")@,
                            sid: ("session_id")@,
                            user_info: profilew,
                            iat: Some(t2),
                            exp: Some(t2 + TOKEN_LIFETIME_SECONDS as int),
                            nonce: noncew,
                        });
                        assert(issued_token_pair(
                            response.access_token@,
                            response.id_token@,
                            audience@,
                            grant_type,
                            app_data.issuer.0@,
                            app_data.subject.0@,
                            noncew,
                            jwk@,
                            t,
                            t2,
                            permsw,
                            customw,
                            profilew,
                            c.jti,
                        ));
                    },
                    None => {
                        assert(false);
                    },
                }
            },
            None => {
                assert(false);
            },
        }
    }
    Ok(response)
}

/// Handles a client-credentials token request: issues tokens for the
/// request's audience exactly when the credentials are the accepted pair,
/// and is denied exactly when they are not.
pub fn jwt_for_client_credentials(app_data: &AppData, request: &ClientCredentialsTokenRequest) -> (r:
    Result<TokenResponse, Error>)
    ensures
        (r matches Err(e) && e == Error::Unauthorized) <==> !(request.client_id@ == ("client_id")@
            && request.client_secret@ == ("client_secret")@),
        r matches Ok(tr) ==> issued_for(
            tr.access_token@,
            tr.id_token@,
            request.audience@,
            GrantType::ClientCredentials,
            app_data.issuer.0@,
            app_data.subject.0@,
            None::<Seq<char>>,
        ),
{
    if !authorize_client(request.client_id.as_str(), request.client_secret.as_str()) {
        return Err(Error::Unauthorized);
    }
    new_token_response(
        app_data,
        request.audience.as_str(),
        GrantType::ClientCredentials,
        None,
    )
}

/// Handles an authorization-code token request: resolves the audience the
/// code was issued for, then issues tokens under the authorization-code
/// grant, echoing the request's nonce. Denied exactly on bad credentials;
/// on success the tokens were issued for the resolved audience.
pub fn jwt_for_authorization_code(
    app_data: &AppData,
    request: AuthorizationCodeTokenRequest,
) -> (r: Result<TokenResponse, Error>)
    ensures
        (r matches Err(e) && e == Error::Unauthorized) <==> !(request.client_id@ == ("client_id")@
            && request.client_secret@ == ("client_secret")@),
        r matches Ok(tr) ==> exists|aud: Seq<char>|
            issued_for(
                tr.access_token@,
                tr.id_token@,
                aud,
                GrantType::AuthorizationCode,
                app_data.issuer.0@,
                app_data.subject.0@,
                nonce_view(request.nonce),
            ),
{
    if !authorize_client(request.client_id.as_str(), request.client_secret.as_str()) {
        return Err(Error::Unauthorized);
    }
    let audience: String = match app_data.authorizations().get_audience_for_authorization(
        request.code.as_str(),
    ) {
        Ok(a) => a,
        Err(e) => {
            return Err(e);
        },
    };
    let r = new_token_response(
        app_data,
        audience.as_str(),
        GrantType::AuthorizationCode,
        request.nonce,
    );
    proof {
        match r {
            Ok(ref tr) => {
                assert(issued_for(
                    tr.access_token@,
                    tr.id_token@,
                    audience@,
                    GrantType::AuthorizationCode,
                    app_data.issuer.0@,
                    app_data.subject.0@,
                    nonce_view(request.nonce),
                ));
            },
            Err(_) => {},
        }
    }
    r
}

/// Handles a token request in either grant flavour: denied exactly on bad
/// credentials; on success the tokens were issued for the request's
/// audience (client credentials) or the audience its code resolves to
/// (authorization code), with the request's nonce echoed.
pub fn token(app_data: &AppData, request: TokenRequest) -> (r: Result<TokenResponse, Error>)
    ensures
        (r matches Err(e) && e == Error::Unauthorized) <==> !request_authorized(request),
        r matches Ok(tr) ==> (match request {
            TokenRequest::ClientCredentials(req) => issued_for(
                tr.access_token@,
                tr.id_token@,
                req.audience@,
                GrantType::ClientCredentials,
                app_data.issuer.0@,
                app_data.subject.0@,
                None::<Seq<char>>,
            ),
            TokenRequest::AuthorizationCode(req) => exists|aud: Seq<char>|
                issued_for(
                    tr.access_token@,
                    tr.id_token@,
                    aud,
                    GrantType::AuthorizationCode,
                    app_data.issuer.0@,
                    app_data.subject.0@,
                    nonce_view(req.nonce),
                ),
        }),
{
    match request {
        TokenRequest::ClientCredentials(req) => jwt_for_client_credentials(app_data, &req),
        TokenRequest::AuthorizationCode(req) => jwt_for_authorization_code(app_data, req),
    }
}

/// Logs the stub user in for an audience: a fresh authorization code is
/// stored against the audience and returned. Login always succeeds.
pub fn login(app_data: &AppData, request: LoginRequest) -> (r: Result<LoginResponse, Error>)
    ensures
        r matches Ok(lr) && lr.code@.len() == 36,
{
    let code: String = crate::crypto::random_token();
    match app_data.authorizations().put_authorization(code.as_str(), request.audience) {
        Ok(u) => {},
        Err(e) => {
            proof {
                assert(false);
            }
            return Err(e);
        },
    }
    Ok(LoginResponse { code })
}

} // verus!
