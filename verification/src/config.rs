//! Plain configuration data: audiences with their permissions, custom claim
//! fields, ports, and the assembled configuration the authority starts
//! from. Reading these from TOML or the environment is I/O and lives
//! outside the library; here they are values.

use vstd::prelude::*;

use crate::defaults;
use crate::json::{entries_view, JsonVal, JsonValue};
use crate::text::clone_string_vec;
use crate::user_info::UserInfo;

verus! {

/// The value of a custom claim: a single string or a list of strings.
#[derive(Debug)]
pub enum CustomFieldValue {
    Text(String),
    List(Vec<String>),
}

impl View for CustomFieldValue {
    type V = JsonVal;

    /// A custom field value denotes the JSON value written for it.
    open spec fn view(&self) -> JsonVal {
        match self {
            CustomFieldValue::Text(s) => JsonVal::Str(s@),
            CustomFieldValue::List(l) => JsonVal::StrList(l.deep_view()),
        }
    }
}

impl Clone for CustomFieldValue {
    /// A clone denotes the same JSON value.
    fn clone(&self) -> (r: Self)
        ensures
            r@ == self@,
    {
        match self {
            CustomFieldValue::Text(s) => CustomFieldValue::Text(s.clone()),
            CustomFieldValue::List(l) => CustomFieldValue::List(clone_string_vec(l)),
        }
    }
}

/// A named custom claim, merged into token payloads as a top-level field.
#[derive(Debug)]
pub struct CustomField {
    pub name: String,
    pub value: CustomFieldValue,
}

impl View for CustomField {
    type V = (Seq<char>, JsonVal);

    /// A custom field denotes the payload entry written for it.
    open spec fn view(&self) -> (Seq<char>, JsonVal) {
        (self.name@, self.value@)
    }
}

impl DeepView for CustomField {
    type V = (Seq<char>, JsonVal);

    open spec fn deep_view(&self) -> (Seq<char>, JsonVal) {
        self.view()
    }
}

impl CustomField {
    /// Builds a custom field from its name and value.
    pub fn new(name: String, value: CustomFieldValue) -> (r: Self)
        ensures
            r@ == (name@, value@),
    {
        CustomField { name, value }
    }

    /// The field's name.
    pub fn name(&self) -> (r: &String)
        ensures
            r@ == self@.0,
    {
        &self.name
    }

    /// The field's value.
    pub fn value(&self) -> (r: &CustomFieldValue)
        ensures
            r@ == self@.1,
    {
        &self.value
    }
}

impl Clone for CustomField {
    /// A clone denotes the same payload entry.
    fn clone(&self) -> (r: Self)
        ensures
            r@ == self@,
    {
        CustomField { name: self.name.clone(), value: self.value.clone() }
    }
}

/// Clones a list of custom fields entry for entry.
pub fn clone_custom_fields(v: &Vec<CustomField>) -> (r: Vec<CustomField>)
    ensures
        r.deep_view() == v.deep_view(),
{
    let mut out: Vec<CustomField> = Vec::new();
    let mut i: usize = 0;
    while i < v.len()
        invariant
            i <= v.len(),
            out.deep_view() =~~= v.deep_view().take(i as int),
        decreases v.len() - i,
    {
        let c: CustomField = v[i].clone();
        let ghost out_old: Seq<(Seq<char>, JsonVal)> = out.deep_view();
        out.push(c);
        proof {
            assert(c@ == v@[i as int]@);
            assert(out_old.len() == out@.len() - 1);
            assert(v.deep_view().len() == v@.len());
            assert(v.deep_view().take(i as int).len() == i);
            assert(out_old.len() == i);
            assert(out@.len() == i + 1);
            assert(out.deep_view()[i as int] == c.deep_view());
            assert(forall|k: int| 0 <= k < i ==> out.deep_view()[k] == out_old[k]);
            assert(out.deep_view() =~~= v.deep_view().take(i + 1 as int));
        }
        i = i + 1;
    }
    proof {
        assert(v.deep_view().take(v@.len() as int) =~~= v.deep_view());
    }
    out
}

/// The payload entry written for one custom field.
pub fn custom_field_entry(cf: &CustomField) -> (r: (String, JsonValue))
    ensures
        (r.0@, r.1@) == cf@,
{
    let name: String = cf.name().clone();
    let value: JsonValue = match cf.value() {
        CustomFieldValue::Text(s) => JsonValue::Str(s.clone()),
        CustomFieldValue::List(l) => JsonValue::StrList(clone_string_vec(l)),
    };
    (name, value)
}

/// Appends the payload entries of the custom fields, in list order.
pub fn push_custom_entries(out: &mut Vec<(String, JsonValue)>, cfs: &Vec<CustomField>)
    ensures
        entries_view(final(out)@) == entries_view(old(out)@) + cfs.deep_view(),
{
    let ghost base: Seq<(Seq<char>, JsonVal)> = entries_view(out@);
    let mut i: usize = 0;
    while i < cfs.len()
        invariant
            i <= cfs.len(),
            base == entries_view(old(out)@),
            entries_view(out@) =~~= base + cfs.deep_view().take(i as int),
        decreases cfs.len() - i,
    {
        let entry: (String, JsonValue) = custom_field_entry(&cfs[i]);
        let ghost out_old: Seq<(Seq<char>, JsonVal)> = entries_view(out@);
        out.push(entry);
        proof {
            assert((entry.0@, entry.1@) == cfs@[i as int]@);
            assert(cfs.deep_view().len() == cfs@.len());
            assert(cfs.deep_view().take(i as int).len() == i);
            assert(out_old.len() == base.len() + i);
            assert(entries_view(out@).len() == out_old.len() + 1);
            assert(entries_view(out@)[out_old.len() as int] == (entry.0@, entry.1@));
            assert(forall|k: int| 0 <= k < out_old.len() ==> entries_view(out@)[k] == out_old[k]);
            let ghost rhs: Seq<(Seq<char>, JsonVal)> = base + cfs.deep_view().take(i + 1 as int);
            assert(entries_view(out@).len() == rhs.len());
            assert forall|k: int| 0 <= k < rhs.len() implies entries_view(out@)[k] == rhs[k] by {
                if k < out_old.len() {
                    assert(out_old[k] == (base + cfs.deep_view().take(i as int))[k]);
                    if k >= base.len() {
                        assert(cfs.deep_view().take(i as int)[k - base.len()]
                            == cfs.deep_view().take(i + 1 as int)[k - base.len()]);
                    }
                } else {
                    assert(k == out_old.len());
                    assert(rhs[k] == cfs.deep_view().take(i + 1 as int)[i as int]);
                    assert(cfs.deep_view()[i as int] == cfs@[i as int]@);
                }
            }
            assert(entries_view(out@) =~~= rhs);
        }
        i = i + 1;
    }
    proof {
        assert(cfs.deep_view().take(cfs@.len() as int) =~~= cfs.deep_view());
    }
}

/// An audience and the permissions granted for it.
#[derive(Debug)]
pub struct Audience {
    pub name: String,
    pub permissions: Vec<String>,
}

/// A named user and the permissions granted to it.
#[derive(Debug)]
pub struct User {
    pub name: String,
    pub permissions: Vec<String>,
}

/// Access-token settings: the custom claims merged into every access token.
#[derive(Debug)]
pub struct AccessToken {
    pub custom_claims: Vec<CustomField>,
}

impl Default for AccessToken {
    /// The default access-token settings carry no custom claims.
    fn default() -> (r: Self)
        ensures
            r.custom_claims@.len() == 0,
    {
        AccessToken { custom_claims: Vec::new() }
    }
}

/// The plain HTTP listener settings.
#[derive(Debug)]
pub struct Http {
    pub port: u16,
}

impl Default for Http {
    /// The default HTTP port.
    fn default() -> (r: Self)
        ensures
            r.port == 3000,
    {
        Http { port: defaults::http_port() }
    }
}

/// The TLS listener settings.
#[derive(Debug)]
pub struct Https {
    pub port: u16,
}

impl Default for Https {
    /// The default HTTPS port.
    fn default() -> (r: Self)
        ensures
            r.port == 3001,
    {
        Https { port: defaults::https_port() }
    }
}

/// The authority's assembled configuration.
#[derive(Debug)]
pub struct Config {
    pub issuer: String,
    pub subject: String,
    pub user_info: UserInfo,
    pub audience: Vec<Audience>,
    pub user: Vec<User>,
    pub access_token: AccessToken,
    pub http: Http,
    pub https: Https,
}

impl Default for Config {
    /// The built-in configuration: default issuer and subject, the stub
    /// user profile, and no audiences, users or custom claims.
    fn default() -> (r: Self)
        ensures
            r.issuer@ == ("https://prima.localauth0.com/")@,
            r.subject@ == ("google-apps|developers@prima.it")@,
            r.user_info@ == crate::user_info::default_user_info_view(),
            r.audience@.len() == 0,
            r.user@.len() == 0,
            r.access_token.custom_claims@.len() == 0,
            r.http.port == 3000,
            r.https.port == 3001,
    {
        Config {
            issuer: defaults::issuer(),
            subject: defaults::subject(),
            user_info: UserInfo::default(),
            audience: Vec::new(),
            user: Vec::new(),
            access_token: AccessToken::default(),
            http: Http::default(),
            https: Https::default(),
        }
    }
}

} // verus!
