//! Access-token claims.
//!
//! A claim set is assembled from the audience, the permissions resolved for
//! it, issuer, subject, grant type and the configured custom claims. The
//! `scope` claim is always the space-joined permission list, never set
//! independently; `iat` is the issue instant and `exp` lies a fixed
//! lifetime after it. Serialization writes the fixed claims first and the
//! custom claims after them, in order. On any name collision — custom
//! against custom, or custom against a fixed claim — the value written
//! last wins in the decoded object: one uniform, deliberate rule, proved
//! at the lookup level and tested both ways.

use vstd::prelude::*;

use crate::config::{clone_custom_fields, push_custom_entries, CustomField};
use crate::crypto::{now_unix, random_token};
use crate::json::{entries_view, JsonVal, JsonValue};
use crate::text::{join_spaces, join_with_spaces, str_eq};

verus! {

/// The fixed token lifetime in seconds: `exp` minus `iat`.
pub const TOKEN_LIFETIME_SECONDS: i64 = 60000;

/// The OAuth2 flow a token was issued under.
#[derive(Clone, Copy, Debug, PartialEq, Eq, Structural)]
pub enum GrantType {
    ClientCredentials,
    AuthorizationCode,
}

impl GrantType {
    /// The grant type's wire name.
    pub open spec fn spec_str(self) -> Seq<char> {
        match self {
            GrantType::ClientCredentials => ("client_credentials")@,
            GrantType::AuthorizationCode => ("authorization_code")@,
        }
    }

    /// The grant type's wire name, executably.
    pub fn as_str(&self) -> (r: &'static str)
        ensures
            r@ == self.spec_str(),
    {
        match self {
            GrantType::ClientCredentials => "client_credentials",
            GrantType::AuthorizationCode => "authorization_code",
        }
    }
}

/// The mathematical shape of an access-token claim set.
#[verifier::ext_equal]
pub struct ClaimsView {
    pub iss: Seq<char>,
    pub sub: Seq<char>,
    pub aud: Seq<char>,
    pub exp: Option<int>,
    pub nbf: Option<int>,
    pub iat: Option<int>,
    pub jti: Seq<char>,
    pub scope: Seq<char>,
    pub gty: GrantType,
    pub permissions: Seq<Seq<char>>,
    pub custom_claims: Seq<(Seq<char>, JsonVal)>,
}

/// The JSON value of an optional integer claim: the number, or null.
pub open spec fn opt_int_val(o: Option<int>) -> JsonVal {
    match o {
        Some(x) => JsonVal::Int(x),
        None => JsonVal::Null,
    }
}

impl ClaimsView {
    /// The payload entries of the claim set: the fixed claims in their
    /// fixed order, then the custom claims in list order.
    pub open spec fn entries(self) -> Seq<(Seq<char>, JsonVal)> {
        seq![
            (("iss")@, JsonVal::Str(self.iss)),
            (("sub")@, JsonVal::Str(self.sub)),
            (("aud")@, JsonVal::Str(self.aud)),
            (("exp")@, opt_int_val(self.exp)),
            (("nbf")@, opt_int_val(self.nbf)),
            (("iat")@, opt_int_val(self.iat)),
            (("jti")@, JsonVal::Str(self.jti)),
            (("scope")@, JsonVal::Str(self.scope)),
            (("gty")@, JsonVal::Str(self.gty.spec_str())),
            (("permissions")@, JsonVal::StrList(self.permissions)),
        ] + self.custom_claims
    }
}

/// The claims of an access token.
#[derive(Debug)]
pub struct Claims {
    pub iss: String,
    pub sub: String,
    pub aud: String,
    pub exp: Option<i64>,
    pub nbf: Option<i64>,
    pub iat: Option<i64>,
    pub jti: String,
    pub scope: String,
    pub gty: GrantType,
    pub permissions: Vec<String>,
    pub custom_claims: Vec<CustomField>,
}

impl View for Claims {
    type V = ClaimsView;

    open spec fn view(&self) -> ClaimsView {
        ClaimsView {
            iss: self.iss@,
            sub: self.sub@,
            aud: self.aud@,
            exp: match self.exp {
                Some(x) => Some(x as int),
                None => None,
            },
            nbf: match self.nbf {
                Some(x) => Some(x as int),
                None => None,
            },
            iat: match self.iat {
                Some(x) => Some(x as int),
                None => None,
            },
            jti: self.jti@,
            scope: self.scope@,
            gty: self.gty,
            permissions: self.permissions.deep_view(),
            custom_claims: self.custom_claims.deep_view(),
        }
    }
}

impl Claims {
    /// Assembles the claim set as of instant `now`: `iat` and `nbf` are
    /// `now`, `exp` lies the fixed lifetime later, and `scope` is exactly
    /// the space-joined permission list.
    pub fn new_at(
        aud: String,
        permissions: Vec<String>,
        iss: String,
        sub: String,
        gty: GrantType,
        custom_claims: Vec<CustomField>,
        now: i64,
        jti: String,
    ) -> (r: Claims)
        requires
            now <= i64::MAX - TOKEN_LIFETIME_SECONDS,
        ensures
            r@.iss == iss@,
            r@.sub == sub@,
            r@.aud == aud@,
            r@.exp == Some(now + TOKEN_LIFETIME_SECONDS as int),
            r@.nbf == Some(now as int),
            r@.iat == Some(now as int),
            r@.jti == jti@,
            r@.scope == join_spaces(permissions.deep_view()),
            r@.gty == gty,
            r@.permissions == permissions.deep_view(),
            r@.custom_claims == custom_claims.deep_view(),
    {
        let scope: String = join_with_spaces(&permissions);
        Claims {
            iss,
            sub,
            aud,
            exp: Some(now + TOKEN_LIFETIME_SECONDS),
            nbf: Some(now),
            iat: Some(now),
            jti,
            scope,
            gty,
            permissions,
            custom_claims,
        }
    }

    /// Assembles the claim set at the current instant with a fresh random
    /// `jti`. The `scope` claim is derived from the permissions; `exp`
    /// always lies the fixed lifetime after `iat`.
    pub fn new(
        aud: String,
        permissions: Vec<String>,
        iss: String,
        sub: String,
        gty: GrantType,
        custom_claims: Vec<CustomField>,
    ) -> (r: Claims)
        ensures
            r@.iss == iss@,
            r@.sub == sub@,
            r@.aud == aud@,
            r@.iat matches Some(t) && r@.exp == Some(t + TOKEN_LIFETIME_SECONDS as int) && r@.nbf
                == Some(t),
            r@.jti.len() == 36,
            r@.scope == join_spaces(permissions.deep_view()),
            r@.gty == gty,
            r@.permissions == permissions.deep_view(),
            r@.custom_claims == custom_claims.deep_view(),
    {
        let raw_now: i64 = now_unix();
        let now: i64 = if raw_now > i64::MAX - TOKEN_LIFETIME_SECONDS {
            i64::MAX - TOKEN_LIFETIME_SECONDS
        } else {
            raw_now
        };
        let jti: String = random_token();
        Claims::new_at(aud, permissions, iss, sub, gty, custom_claims, now, jti)
    }

    /// Whether the claim set grants the permission.
    pub fn has_permission(&self, permission: &str) -> (r: bool)
        ensures
            r == self@.permissions.contains(permission@),
    {
        let mut i: usize = 0;
        while i < self.permissions.len()
            invariant
                i <= self.permissions.len(),
                forall|k: int| 0 <= k < i ==> self@.permissions[k] != permission@,
                self@.permissions.len() == self.permissions@.len(),
                forall|k: int|
                    0 <= k < self@.permissions.len() ==> self@.permissions[k] == self.permissions@[
                        k
                    ]@,
            decreases self.permissions.len() - i,
        {
            if str_eq(self.permissions[i].as_str(), permission) {
                proof {
                    assert(self@.permissions[i as int] == permission@);
                    assert(self@.permissions.contains(permission@));
                }
                return true;
            }
            i = i + 1;
        }
        proof {
            assert(!self@.permissions.contains(permission@)) by {
                if self@.permissions.contains(permission@) {
                    let k = choose|k: int|
                        0 <= k < self@.permissions.len() && self@.permissions[k] == permission@;
                    assert(false);
                }
            }
        }
        false
    }

    /// The audience the token was issued for.
    pub fn audience(&self) -> (r: &str)
        ensures
            r@ == self@.aud,
    {
        self.aud.as_str()
    }

    /// The issuer string.
    pub fn issuer(&self) -> (r: &str)
        ensures
            r@ == self@.iss,
    {
        self.iss.as_str()
    }

    /// The subject string.
    pub fn subject(&self) -> (r: &str)
        ensures
            r@ == self@.sub,
    {
        self.sub.as_str()
    }

    /// The derived scope: the space-joined permission list.
    pub fn scope(&self) -> (r: &str)
        ensures
            r@ == self@.scope,
    {
        self.scope.as_str()
    }

    /// The grant type the token was issued under.
    pub fn grant_type(&self) -> (r: &GrantType)
        ensures
            *r == self@.gty,
    {
        &self.gty
    }

    /// The custom claims merged into the payload.
    pub fn custom_claims(&self) -> (r: &Vec<CustomField>)
        ensures
            r.deep_view() == self@.custom_claims,
    {
        &self.custom_claims
    }

    /// The claim set as payload entries: fixed claims first, then the
    /// custom claims in order, later duplicates overriding earlier names
    /// when the object is read back.
    pub fn to_entries(&self) -> (r: Vec<(String, JsonValue)>)
        ensures
            entries_view(r@) == self@.entries(),
    {
        let mut out: Vec<(String, JsonValue)> = Vec::new();
        out.push((("iss").to_owned(), JsonValue::Str(self.iss.clone())));
        out.push((("sub").to_owned(), JsonValue::Str(self.sub.clone())));
        out.push((("aud").to_owned(), JsonValue::Str(self.aud.clone())));
        out.push((("exp").to_owned(), opt_int_value(&self.exp)));
        out.push((("nbf").to_owned(), opt_int_value(&self.nbf)));
        out.push((("iat").to_owned(), opt_int_value(&self.iat)));
        out.push((("jti").to_owned(), JsonValue::Str(self.jti.clone())));
        out.push((("scope").to_owned(), JsonValue::Str(self.scope.clone())));
        out.push((("gty").to_owned(), JsonValue::Str(self.gty.as_str().to_owned())));
        out.push(
            (("permissions").to_owned(), JsonValue::StrList(
                crate::text::clone_string_vec(&self.permissions),
            )),
        );
        push_custom_entries(&mut out, &self.custom_claims);
        proof {
            assert(entries_view(out@) =~~= self@.entries());
        }
        out
    }
}

impl Clone for Claims {
    /// A clone denotes the same claim set.
    fn clone(&self) -> (r: Self)
        ensures
            r@ == self@,
    {
        Claims {
            iss: self.iss.clone(),
            sub: self.sub.clone(),
            aud: self.aud.clone(),
            exp: self.exp,
            nbf: self.nbf,
            iat: self.iat,
            jti: self.jti.clone(),
            scope: self.scope.clone(),
            gty: self.gty,
            permissions: crate::text::clone_string_vec(&self.permissions),
            custom_claims: clone_custom_fields(&self.custom_claims),
        }
    }
}

/// The JSON value of an optional integer claim, executably.
fn opt_int_value(o: &Option<i64>) -> (r: JsonValue)
    ensures
        r@ == opt_int_val(match *o {
            Some(x) => Some(x as int),
            None => None,
        }),
{
    match o {
        Some(x) => JsonValue::Int(*x),
        None => JsonValue::Null,
    }
}

} // verus!
