//! The built-in values the authority starts from when no configuration
//! overrides them: issuer, subject, the stub user profile, and the ports.

use vstd::prelude::*;

verus! {

/// The default issuer string.
pub fn issuer() -> (r: String)
    ensures
        r@ == ("https://prima.localauth0.com/")@,
{
    ("https://prima.localauth0.com/").to_owned()
}

/// The default subject placed in access tokens.
pub fn subject() -> (r: String)
    ensures
        r@ == ("google-apps|developers@prima.it")@,
{
    ("google-apps|developers@prima.it").to_owned()
}

/// The default user-info subject.
pub fn user_info_subject() -> (r: String)
    ensures
        r@ == ("google-apps|developers@prima.it")@,
{
    ("google-apps|developers@prima.it").to_owned()
}

/// The default user-info display name.
pub fn user_info_name() -> (r: String)
    ensures
        r@ == ("Local")@,
{
    ("Local").to_owned()
}

/// The default user-info given name.
pub fn user_info_given_name() -> (r: String)
    ensures
        r@ == ("Locie")@,
{
    ("Locie").to_owned()
}

/// The default user-info family name.
pub fn user_info_family_name() -> (r: String)
    ensures
        r@ == ("Auth0")@,
{
    ("Auth0").to_owned()
}

/// The default user-info nickname.
pub fn user_info_nickname() -> (r: String)
    ensures
        r@ == ("locie.auth0")@,
{
    ("locie.auth0").to_owned()
}

/// The default user-info locale.
pub fn user_info_locale() -> (r: String)
    ensures
        r@ == ("en")@,
{
    ("en").to_owned()
}

/// The default user-info gender.
pub fn user_info_gender() -> (r: String)
    ensures
        r@ == ("none")@,
{
    ("none").to_owned()
}

/// The default user-info birthdate.
pub fn user_info_birthdate() -> (r: String)
    ensures
        r@ == ("2022-02-11")@,
{
    ("2022-02-11").to_owned()
}

/// The default user-info email address.
pub fn user_info_email() -> (r: String)
    ensures
        r@ == ("developers@prima.it")@,
{
    ("developers@prima.it").to_owned()
}

/// Whether the default user-info email counts as verified.
pub fn user_info_email_verified() -> (r: bool)
    ensures
        r == true,
{
    true
}

/// The default user-info last-update instant, as RFC 3339 text with
/// millisecond precision, the form in which ID tokens carry it.
pub fn user_info_updated_at() -> (r: String)
    ensures
        r@ == ("2022-11-11T11:00:00.000Z")@,
{
    ("2022-11-11T11:00:00.000Z").to_owned()
}

/// The default user-info picture URL.
pub fn user_info_picture() -> (r: String)
    ensures
        r@ == (
        "https://github.com/primait/localauth0/blob/6f71c9318250219a9d03fb72afe4308b8824aef7/web/assets/static/media/localauth0.png")@,
{
    (
    "https://github.com/primait/localauth0/blob/6f71c9318250219a9d03fb72afe4308b8824aef7/web/assets/static/media/localauth0.png").to_owned()
}

/// The default HTTP port.
pub fn http_port() -> (r: u16)
    ensures
        r == 3000,
{
    3000
}

/// The default HTTPS port.
pub fn https_port() -> (r: u16)
    ensures
        r == 3001,
{
    3001
}

} // verus!
