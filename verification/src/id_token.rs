//! ID-token claims: the OIDC identity fields around the full user profile.

use vstd::prelude::*;

use crate::claims::{opt_int_val, TOKEN_LIFETIME_SECONDS};
use crate::crypto::now_unix;
use crate::json::{entries_view, JsonVal, JsonValue};
use crate::user_info::{UserInfo, UserInfoView};
use crate::Issuer;

verus! {

/// The mathematical shape of an ID-token claim set.
#[verifier::ext_equal]
pub struct IdTokenClaimsView {
    pub iss: Seq<char>,
    pub aud: Seq<char>,
    pub sid: Seq<char>,
    pub user_info: UserInfoView,
    pub iat: Option<int>,
    pub exp: Option<int>,
    pub nonce: Option<Seq<char>>,
}

impl IdTokenClaimsView {
    /// The payload entries: issuer, audience and session id, then the full
    /// profile, then the instants and the echoed nonce.
    pub open spec fn entries(self) -> Seq<(Seq<char>, JsonVal)> {
        seq![
            (("iss")@, JsonVal::Str(self.iss)),
            (("aud")@, JsonVal::Str(self.aud)),
            (("sid")@, JsonVal::Str(self.sid)),
        ] + self.user_info.entries() + seq![
            (("iat")@, opt_int_val(self.iat)),
            (("exp")@, opt_int_val(self.exp)),
            (("nonce")@, match self.nonce {
                Some(n) => JsonVal::Str(n),
                None => JsonVal::Null,
            }),
        ]
    }
}

/// The claims of an ID token: standard OIDC fields plus the user profile
/// and the nonce echoed from the request.
#[derive(Debug)]
pub struct IdTokenClaims {
    pub iss: String,
    pub aud: String,
    pub sid: String,
    pub user_info: UserInfo,
    pub iat: Option<i64>,
    pub exp: Option<i64>,
    pub nonce: Option<String>,
}

impl View for IdTokenClaims {
    type V = IdTokenClaimsView;

    open spec fn view(&self) -> IdTokenClaimsView {
        IdTokenClaimsView {
            iss: self.iss@,
            aud: self.aud@,
            sid: self.sid@,
            user_info: self.user_info@,
            iat: match self.iat {
                Some(x) => Some(x as int),
                None => None,
            },
            exp: match self.exp {
                Some(x) => Some(x as int),
                None => None,
            },
            nonce: match &self.nonce {
                Some(n) => Some(n@),
                None => None,
            },
        }
    }
}

impl IdTokenClaims {
    /// Assembles the ID-token claims as of instant `now`: `iat` is `now`
    /// and `exp` lies the fixed lifetime later.
    pub fn new_at(
        issuer: &Issuer,
        audience: String,
        user_info: UserInfo,
        nonce: Option<String>,
        now: i64,
    ) -> (r: IdTokenClaims)
        requires
            now <= i64::MAX - TOKEN_LIFETIME_SECONDS,
        ensures
            r@.iss == issuer.0@,
            r@.aud == audience@,
            r@.sid == ("session_id")@,
            r@.user_info == user_info@,
            r@.iat == Some(now as int),
            r@.exp == Some(now + TOKEN_LIFETIME_SECONDS as int),
            r@.nonce == (match nonce {
                Some(n) => Some(n@),
                None => None::<Seq<char>>,
            }),
    {
        IdTokenClaims {
            iss: issuer.0.clone(),
            aud: audience,
            sid: ("session_id").to_owned(),
            user_info,
            iat: Some(now),
            exp: Some(now + TOKEN_LIFETIME_SECONDS),
            nonce,
        }
    }

    /// Assembles the ID-token claims at the current instant.
    pub fn new(issuer: &Issuer, audience: String, user_info: UserInfo, nonce: Option<String>) -> (r:
        IdTokenClaims)
        ensures
            r@.iss == issuer.0@,
            r@.aud == audience@,
            r@.sid == ("session_id")@,
            r@.user_info == user_info@,
            r@.iat matches Some(t) && r@.exp == Some(t + TOKEN_LIFETIME_SECONDS as int),
            r@.nonce == (match nonce {
                Some(n) => Some(n@),
                None => None::<Seq<char>>,
            }),
    {
        let raw_now: i64 = now_unix();
        let now: i64 = if raw_now > i64::MAX - TOKEN_LIFETIME_SECONDS {
            i64::MAX - TOKEN_LIFETIME_SECONDS
        } else {
            raw_now
        };
        IdTokenClaims::new_at(issuer, audience, user_info, nonce, now)
    }

    /// The claim set as payload entries, the profile flattened between the
    /// fixed leading fields and the instants.
    pub fn to_entries(&self) -> (r: Vec<(String, JsonValue)>)
        ensures
            entries_view(r@) == self@.entries(),
    {
        let mut out: Vec<(String, JsonValue)> = Vec::new();
        out.push((("iss").to_owned(), JsonValue::Str(self.iss.clone())));
        out.push((("aud").to_owned(), JsonValue::Str(self.aud.clone())));
        out.push((("sid").to_owned(), JsonValue::Str(self.sid.clone())));
        let mut profile: Vec<(String, JsonValue)> = self.user_info.to_entries();
        let ghost head: Seq<(Seq<char>, JsonVal)> = entries_view(out@);
        let ghost mid: Seq<(Seq<char>, JsonVal)> = entries_view(profile@);
        out.append(&mut profile);
        proof {
            assert(entries_view(out@) =~~= head + mid);
        }
        out.push(
            (("iat").to_owned(), match self.iat {
                Some(x) => JsonValue::Int(x),
                None => JsonValue::Null,
            }),
        );
        out.push(
            (("exp").to_owned(), match self.exp {
                Some(x) => JsonValue::Int(x),
                None => JsonValue::Null,
            }),
        );
        out.push(
            (("nonce").to_owned(), match &self.nonce {
                Some(n) => JsonValue::Str(n.clone()),
                None => JsonValue::Null,
            }),
        );
        proof {
            assert(entries_view(out@) =~~= self@.entries());
        }
        out
    }
}

} // verus!
