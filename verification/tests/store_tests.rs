//! The stores: audience permissions, authorization codes, custom claims,
//! the user profile and its sparse update, and the defaults.

use localauth0::audience::Audience as AudienceCache;
use localauth0::config::{AccessToken, CustomField, CustomFieldValue};
use localauth0::defaults;
use localauth0::request::{PermissionsForAudienceRequest, UpdateUserInfoRequest};
use localauth0::store::{Audiences, Authorizations, CustomClaims, UserInfoStore};
use localauth0::user_info::UserInfo;

fn empty_patch() -> UpdateUserInfoRequest {
    UpdateUserInfoRequest {
        subject: None,
        name: None,
        given_name: None,
        family_name: None,
        nickname: None,
        locale: None,
        gender: None,
        birthdate: None,
        email: None,
        email_verified: None,
        picture: None,
        updated_at: None,
        custom_fields: None,
    }
}

#[test]
fn audiences_store_replaces_and_lists_permissions() {
    let store = Audiences::new(&Vec::new());
    assert_eq!(store.get_permissions("hello").unwrap(), Vec::<String>::new());
    store
        .put_permissions("hello", vec!["world".to_string()])
        .unwrap();
    assert_eq!(
        store.get_permissions("hello").unwrap(),
        vec!["world".to_string()]
    );
    store
        .put_permissions("hello", vec!["mars".to_string()])
        .unwrap();
    assert_eq!(
        store.get_permissions("hello").unwrap(),
        vec!["mars".to_string()]
    );
    let all = store.all().unwrap();
    assert_eq!(all.len(), 1);
    assert_eq!(all[0].0, "hello");
}

#[test]
fn audience_cache_loads_sparse_permission_settings() {
    let cache = AudienceCache::new();
    cache.load_permission_settings(&None);
    assert_eq!(cache.all().unwrap().len(), 0);
    cache.load_permission_settings(&Some(vec![
        PermissionsForAudienceRequest {
            audience: "a".to_string(),
            permissions: vec!["a:read".to_string()],
        },
        PermissionsForAudienceRequest {
            audience: "b".to_string(),
            permissions: vec!["b:read".to_string()],
        },
    ]));
    assert_eq!(
        cache.get_permissions("a").unwrap(),
        vec!["a:read".to_string()]
    );
    assert_eq!(
        cache.get_permissions("b").unwrap(),
        vec!["b:read".to_string()]
    );
}

#[test]
fn authorizations_store_maps_codes_to_audiences() {
    let store = Authorizations::new();
    assert_eq!(store.get_audience_for_authorization("c1").unwrap(), "");
    store.put_authorization("c1", "aud1".to_string()).unwrap();
    assert_eq!(store.get_audience_for_authorization("c1").unwrap(), "aud1");
    store.put_authorization("c1", "aud2".to_string()).unwrap();
    assert_eq!(store.get_audience_for_authorization("c1").unwrap(), "aud2");
    assert_eq!(store.all().unwrap().len(), 1);
}

#[test]
fn custom_claims_store_appends_and_replaces() {
    let store = CustomClaims::new(&AccessToken {
        custom_claims: vec![CustomField::new(
            "seeded".to_string(),
            CustomFieldValue::Text("v".to_string()),
        )],
    });
    assert_eq!(store.all().unwrap().len(), 1);
    store
        .add_custom_field(CustomField::new(
            "extra".to_string(),
            CustomFieldValue::List(vec!["x".to_string()]),
        ))
        .unwrap();
    let all = store.all().unwrap();
    assert_eq!(all.len(), 2);
    assert_eq!(all[1].name(), "extra");
    store
        .put_custom_fields(vec![CustomField::new(
            "only".to_string(),
            CustomFieldValue::Text("w".to_string()),
        )])
        .unwrap();
    let all = store.all().unwrap();
    assert_eq!(all.len(), 1);
    assert_eq!(all[0].name(), "only");
}

#[test]
fn user_info_update_replaces_set_fields_and_keeps_unset_ones() {
    let store = UserInfoStore::new(UserInfo::default());
    let before: UserInfo = store.get().unwrap();

    let mut patch = empty_patch();
    patch.name = Some("Renamed".to_string());
    patch.email_verified = Some(false);
    let updated: UserInfo = store.update(patch).unwrap();

    assert_eq!(updated.name, "Renamed");
    assert!(!updated.email_verified);
    assert_eq!(updated.sub, before.sub);
    assert_eq!(updated.given_name, before.given_name);
    assert_eq!(updated.updated_at, before.updated_at);

    // The stored profile is the merged one.
    let current: UserInfo = store.get().unwrap();
    assert_eq!(current.name, "Renamed");

    // Replace puts back a whole profile.
    store.replace(UserInfo::default()).unwrap();
    assert_eq!(store.get().unwrap().name, before.name);
}

#[test]
fn defaults_match_the_shipped_profile() {
    assert_eq!(defaults::issuer(), "https://prima.localauth0.com/");
    assert_eq!(defaults::subject(), "google-apps|developers@prima.it");
    let profile = UserInfo::default();
    assert_eq!(profile.sub, defaults::user_info_subject());
    assert_eq!(profile.name, "Local");
    assert_eq!(profile.given_name, "Locie");
    assert_eq!(profile.family_name, "Auth0");
    assert_eq!(profile.nickname, "locie.auth0");
    assert_eq!(profile.locale, "en");
    assert_eq!(profile.gender, "none");
    assert_eq!(profile.birthdate, "2022-02-11");
    assert_eq!(profile.email, "developers@prima.it");
    assert!(profile.email_verified);
    assert_eq!(profile.updated_at, "2022-11-11T11:00:00.000Z");
    assert!(profile.custom_fields.is_none());
    assert_eq!(defaults::http_port(), 3000);
    assert_eq!(defaults::https_port(), 3001);
}
