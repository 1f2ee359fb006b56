//! The user profile carried by ID tokens.
//!
//! The profile is plain data; its serialization writes the fixed fields
//! first and then any custom fields, so a custom field whose name repeats
//! an earlier one wins when the object is read back as a map. Sparse
//! updates are a pure merge: a set field replaces, an unset field keeps.

use vstd::prelude::*;

use crate::config::{clone_custom_fields, CustomField, CustomFieldValue};
use crate::defaults;
use crate::json::{entries_view, JsonVal, JsonValue};
use crate::request::UpdateUserInfoRequest;
use crate::text::clone_string_vec;

verus! {

/// The mathematical shape of a user profile.
#[verifier::ext_equal]
pub struct UserInfoView {
    pub sub: Seq<char>,
    pub name: Seq<char>,
    pub given_name: Seq<char>,
    pub family_name: Seq<char>,
    pub nickname: Seq<char>,
    pub locale: Seq<char>,
    pub gender: Seq<char>,
    pub birthdate: Seq<char>,
    pub email: Seq<char>,
    pub email_verified: bool,
    pub picture: Seq<char>,
    pub updated_at: Seq<char>,
    pub custom_fields: Option<Seq<(Seq<char>, JsonVal)>>,
}

impl UserInfoView {
    /// The payload entries of the profile: the fixed fields in their fixed
    /// order, then the custom fields in list order.
    pub open spec fn entries(self) -> Seq<(Seq<char>, JsonVal)> {
        seq![
            (("sub")@, JsonVal::Str(self.sub)),
            (("name")@, JsonVal::Str(self.name)),
            (("given_name")@, JsonVal::Str(self.given_name)),
            (("family_name")@, JsonVal::Str(self.family_name)),
            (("nickname")@, JsonVal::Str(self.nickname)),
            (("locale")@, JsonVal::Str(self.locale)),
            (("gender")@, JsonVal::Str(self.gender)),
            (("birthdate")@, JsonVal::Str(self.birthdate)),
            (("email")@, JsonVal::Str(self.email)),
            (("email_verified")@, JsonVal::Bool(self.email_verified)),
            (("picture")@, JsonVal::Str(self.picture)),
            (("updated_at")@, JsonVal::Str(self.updated_at)),
        ] + (match self.custom_fields {
            Some(cf) => cf,
            None => Seq::<(Seq<char>, JsonVal)>::empty(),
        })
    }
}

/// The profile the authority starts from.
pub open spec fn default_user_info_view() -> UserInfoView {
    UserInfoView {
        sub: ("google-apps|developers@prima.it")@,
        name: ("Local")@,
        given_name: ("Locie")@,
        family_name: ("Auth0")@,
        nickname: ("locie.auth0")@,
        locale: ("en")@,
        gender: ("none")@,
        birthdate: ("2022-02-11")@,
        email: ("developers@prima.it")@,
        email_verified: true,
        picture: (
        "https://github.com/primait/localauth0/blob/6f71c9318250219a9d03fb72afe4308b8824aef7/web/assets/static/media/localauth0.png")@,
        updated_at: ("2022-11-11T11:00:00.000Z")@,
        custom_fields: None,
    }
}

/// The profile after a sparse update: a set field of the patch replaces
/// the current value, an unset field keeps it, for the custom fields as for
/// every fixed field.
pub open spec fn merged_view(cur: UserInfoView, patch: UpdateUserInfoRequest) -> UserInfoView {
    UserInfoView {
        sub: match patch.subject {
            Some(s) => s@,
            None => cur.sub,
        },
        name: match patch.name {
            Some(s) => s@,
            None => cur.name,
        },
        given_name: match patch.given_name {
            Some(s) => s@,
            None => cur.given_name,
        },
        family_name: match patch.family_name {
            Some(s) => s@,
            None => cur.family_name,
        },
        nickname: match patch.nickname {
            Some(s) => s@,
            None => cur.nickname,
        },
        locale: match patch.locale {
            Some(s) => s@,
            None => cur.locale,
        },
        gender: match patch.gender {
            Some(s) => s@,
            None => cur.gender,
        },
        birthdate: match patch.birthdate {
            Some(s) => s@,
            None => cur.birthdate,
        },
        email: match patch.email {
            Some(s) => s@,
            None => cur.email,
        },
        email_verified: match patch.email_verified {
            Some(b) => b,
            None => cur.email_verified,
        },
        picture: match patch.picture {
            Some(s) => s@,
            None => cur.picture,
        },
        updated_at: match patch.updated_at {
            Some(s) => s@,
            None => cur.updated_at,
        },
        custom_fields: match patch.custom_fields {
            Some(v) => Some(v.deep_view()),
            None => cur.custom_fields,
        },
    }
}

/// The user profile: the OIDC fields, the last-update instant as RFC 3339
/// text with millisecond precision, and optional custom fields.
#[derive(Debug)]
pub struct UserInfo {
    pub sub: String,
    pub name: String,
    pub given_name: String,
    pub family_name: String,
    pub nickname: String,
    pub locale: String,
    pub gender: String,
    pub birthdate: String,
    pub email: String,
    pub email_verified: bool,
    pub picture: String,
    pub updated_at: String,
    pub custom_fields: Option<Vec<CustomField>>,
}

impl View for UserInfo {
    type V = UserInfoView;

    open spec fn view(&self) -> UserInfoView {
        UserInfoView {
            sub: self.sub@,
            name: self.name@,
            given_name: self.given_name@,
            family_name: self.family_name@,
            nickname: self.nickname@,
            locale: self.locale@,
            gender: self.gender@,
            birthdate: self.birthdate@,
            email: self.email@,
            email_verified: self.email_verified,
            picture: self.picture@,
            updated_at: self.updated_at@,
            custom_fields: match &self.custom_fields {
                Some(v) => Some(v.deep_view()),
                None => None,
            },
        }
    }
}

impl Clone for UserInfo {
    /// A clone denotes the same profile.
    fn clone(&self) -> (r: Self)
        ensures
            r@ == self@,
    {
        UserInfo {
            sub: self.sub.clone(),
            name: self.name.clone(),
            given_name: self.given_name.clone(),
            family_name: self.family_name.clone(),
            nickname: self.nickname.clone(),
            locale: self.locale.clone(),
            gender: self.gender.clone(),
            birthdate: self.birthdate.clone(),
            email: self.email.clone(),
            email_verified: self.email_verified,
            picture: self.picture.clone(),
            updated_at: self.updated_at.clone(),
            custom_fields: match &self.custom_fields {
                Some(v) => Some(clone_custom_fields(v)),
                None => None,
            },
        }
    }
}

impl Default for UserInfo {
    /// The stub profile the authority starts from.
    fn default() -> (r: Self)
        ensures
            r@ == default_user_info_view(),
    {
        let r = UserInfo {
            sub: defaults::user_info_subject(),
            name: defaults::user_info_name(),
            given_name: defaults::user_info_given_name(),
            family_name: defaults::user_info_family_name(),
            nickname: defaults::user_info_nickname(),
            locale: defaults::user_info_locale(),
            gender: defaults::user_info_gender(),
            birthdate: defaults::user_info_birthdate(),
            email: defaults::user_info_email(),
            email_verified: defaults::user_info_email_verified(),
            picture: defaults::user_info_picture(),
            updated_at: defaults::user_info_updated_at(),
            custom_fields: None,
        };
        r
    }
}

impl UserInfo {
    /// The profile as payload entries: fixed fields first, then the custom
    /// fields in order.
    pub fn to_entries(&self) -> (r: Vec<(String, JsonValue)>)
        ensures
            entries_view(r@) == self@.entries(),
    {
        let mut out: Vec<(String, JsonValue)> = Vec::new();
        out.push((("sub").to_owned(), JsonValue::Str(self.sub.clone())));
        out.push((("name").to_owned(), JsonValue::Str(self.name.clone())));
        out.push((("given_name").to_owned(), JsonValue::Str(self.given_name.clone())));
        out.push((("family_name").to_owned(), JsonValue::Str(self.family_name.clone())));
        out.push((("nickname").to_owned(), JsonValue::Str(self.nickname.clone())));
        out.push((("locale").to_owned(), JsonValue::Str(self.locale.clone())));
        out.push((("gender").to_owned(), JsonValue::Str(self.gender.clone())));
        out.push((("birthdate").to_owned(), JsonValue::Str(self.birthdate.clone())));
        out.push((("email").to_owned(), JsonValue::Str(self.email.clone())));
        out.push((("email_verified").to_owned(), JsonValue::Bool(self.email_verified)));
        out.push((("picture").to_owned(), JsonValue::Str(self.picture.clone())));
        out.push((("updated_at").to_owned(), JsonValue::Str(self.updated_at.clone())));
        let ghost fixed: Seq<(Seq<char>, JsonVal)> = entries_view(out@);
        match &self.custom_fields {
            None => {
                proof {
                    assert(entries_view(out@) =~~= self@.entries());
                }
            },
            Some(cfs) => {
                crate::config::push_custom_entries(&mut out, cfs);
                proof {
                    assert(entries_view(out@) =~~= self@.entries());
                }
            },
        }
        out
    }

    /// The profile after a sparse update: a set field of the patch
    /// replaces the current value, an unset field keeps it, for the custom
    /// fields as for every fixed field.
    pub fn merged(&self, patch: &UpdateUserInfoRequest) -> (r: UserInfo)
        ensures
            r@ == merged_view(self@, *patch),
    {
        let r = UserInfo {
            sub: match &patch.subject {
                Some(s) => s.clone(),
                None => self.sub.clone(),
            },
            name: match &patch.name {
                Some(s) => s.clone(),
                None => self.name.clone(),
            },
            given_name: match &patch.given_name {
                Some(s) => s.clone(),
                None => self.given_name.clone(),
            },
            family_name: match &patch.family_name {
                Some(s) => s.clone(),
                None => self.family_name.clone(),
            },
            nickname: match &patch.nickname {
                Some(s) => s.clone(),
                None => self.nickname.clone(),
            },
            locale: match &patch.locale {
                Some(s) => s.clone(),
                None => self.locale.clone(),
            },
            gender: match &patch.gender {
                Some(s) => s.clone(),
                None => self.gender.clone(),
            },
            birthdate: match &patch.birthdate {
                Some(s) => s.clone(),
                None => self.birthdate.clone(),
            },
            email: match &patch.email {
                Some(s) => s.clone(),
                None => self.email.clone(),
            },
            email_verified: match &patch.email_verified {
                Some(b) => *b,
                None => self.email_verified,
            },
            picture: match &patch.picture {
                Some(s) => s.clone(),
                None => self.picture.clone(),
            },
            updated_at: match &patch.updated_at {
                Some(s) => s.clone(),
                None => self.updated_at.clone(),
            },
            custom_fields: match &patch.custom_fields {
                Some(v) => Some(clone_custom_fields(v)),
                None => match &self.custom_fields {
                    Some(v) => Some(clone_custom_fields(v)),
                    None => None,
                },
            },
        };
        proof {
            assert(r@ =~~= merged_view(self@, *patch));
        }
        r
    }
}

} // verus!
