//! A standalone concurrency-safe audience→permissions cache, seedable from
//! sparse permission settings.

use vstd::prelude::*;
use vstd::rwlock::RwLock;

use crate::error::Error;
use crate::request::PermissionsForAudienceRequest;
use crate::store::{PermissionMap, PermissionsPred};
use crate::text::clone_string_vec;

verus! {

/// A concurrency-safe audience→permissions cache.
pub struct Audience {
    cache: RwLock<PermissionMap, PermissionsPred>,
}

impl Audience {
    /// An empty cache.
    pub fn new() -> (r: Audience) {
        Audience { cache: RwLock::new(PermissionMap::empty(), Ghost(PermissionsPred)) }
    }

    /// The permissions currently stored for the audience; an unknown
    /// audience has none.
    pub fn get_permissions(&self, audience: &str) -> (r: Result<Vec<String>, Error>)
        ensures
            r is Ok,
    {
        let handle = self.cache.acquire_read();
        let found: Option<Vec<String>> = handle.borrow().get(audience);
        handle.release_read();
        match found {
            Some(ps) => Ok(ps),
            None => Ok(Vec::new()),
        }
    }

    /// Stores the permissions for the audience, replacing what was there.
    pub fn put_permissions(&self, audience: &str, permissions: Vec<String>) -> (r: Result<
        (),
        Error,
    >)
        ensures
            r is Ok,
    {
        let (mut m, handle) = self.cache.acquire_write();
        m.put(audience.to_owned(), permissions);
        handle.release_write(m);
        Ok(())
    }

    /// Loads sparse permission settings: each present request stores its
    /// permissions under its audience; an absent settings list changes
    /// nothing.
    pub fn load_permission_settings(
        &self,
        permission_settings: &Option<Vec<PermissionsForAudienceRequest>>,
    ) {
        match permission_settings {
            None => {},
            Some(requests) => {
                let mut i: usize = 0;
                while i < requests.len()
                    decreases requests.len() - i,
                {
                    let perms: Vec<String> = clone_string_vec(&requests[i].permissions);
                    let outcome: Result<(), Error> = self.put_permissions(
                        requests[i].audience.as_str(),
                        perms,
                    );
                    match outcome {
                        Ok(u) => {},
                        Err(e) => {},
                    }
                    i = i + 1;
                }
            },
        }
    }

    /// Every audience with its permissions.
    pub fn all(&self) -> (r: Result<Vec<(String, Vec<String>)>, Error>)
        ensures
            r is Ok,
    {
        let handle = self.cache.acquire_read();
        let entries: Vec<(String, Vec<String>)> = handle.borrow().all();
        handle.release_read();
        Ok(entries)
    }
}

} // verus!
