//! The application's composition root: the issuer and subject strings and
//! every store, owned in one place and passed by shared reference to the
//! handlers.

use vstd::prelude::*;

use crate::config::Config;
use crate::error::Error;
use crate::store::{Audiences, Authorizations, CustomClaims, JwksStore, UserInfoStore};
use crate::{Issuer, Subject};

verus! {

/// Everything a request handler needs: configuration-derived strings and
/// the concurrency-safe stores.
pub struct AppData {
    pub issuer: Issuer,
    pub subject: Subject,
    pub audiences: Audiences,
    pub authorizations: Authorizations,
    pub custom_claims: CustomClaims,
    pub jwks: JwksStore,
    pub user_info: UserInfoStore,
}

impl AppData {
    /// Builds the application state from the configuration: seeded
    /// audience and custom-claim stores, a fresh key set, and the
    /// configured user profile. Fails only if key generation fails.
    pub fn new(config: &Config) -> (r: Result<AppData, Error>)
        ensures
            match r {
                Ok(a) => a.issuer.0@ == config.issuer@ && a.subject.0@ == config.subject@,
                Err(e) => e == Error::Crypto,
            },
    {
        let jwks: JwksStore = match JwksStore::new() {
            Ok(s) => s,
            Err(e) => {
                return Err(e);
            },
        };
        Ok(
            AppData {
                issuer: Issuer(config.issuer.clone()),
                subject: Subject(config.subject.clone()),
                audiences: Audiences::new(&config.audience),
                authorizations: Authorizations::new(),
                custom_claims: CustomClaims::new(&config.access_token),
                jwks,
                user_info: UserInfoStore::new(config.user_info.clone()),
            },
        )
    }

    /// The configured issuer.
    pub fn issuer(&self) -> (r: &Issuer)
        ensures
            r == self.issuer,
    {
        &self.issuer
    }

    /// The configured subject.
    pub fn subject(&self) -> (r: &Subject)
        ensures
            r == self.subject,
    {
        &self.subject
    }

    /// The audience→permissions store.
    pub fn audiences(&self) -> (r: &Audiences) {
        &self.audiences
    }

    /// The authorization-code store.
    pub fn authorizations(&self) -> (r: &Authorizations) {
        &self.authorizations
    }

    /// The custom-claims store.
    pub fn custom_claims(&self) -> (r: &CustomClaims) {
        &self.custom_claims
    }

    /// The key-set store.
    pub fn jwks(&self) -> (r: &JwksStore) {
        &self.jwks
    }

    /// The user-profile store.
    pub fn user_info(&self) -> (r: &UserInfoStore) {
        &self.user_info
    }
}

} // verus!
