//! The process-wide stores: the rotating key set, the audience permissions,
//! the issued authorization codes, the configured custom claims and the
//! user profile, each behind a reader/writer lock. Writers compute from a
//! freshly observed state and install the result atomically; readers only
//! ever observe a complete state. The pure state types carry the exact
//! semantics; the lock wrappers add concurrency and keep the invariants.

use vstd::prelude::*;
use vstd::rwlock::{RwLock, RwLockPredicate};

use crate::config::{clone_custom_fields, AccessToken, Audience, CustomField};
use crate::error::Error;
use crate::jwks::{jwks_wf, Jwk, Jwks};
use crate::request::UpdateUserInfoRequest;
use crate::text::{clone_string_vec, str_eq};
use crate::user_info::{UserInfo, UserInfoView};

verus! {

/// The last value stored under a key of an association list, if any.
pub open spec fn assoc_last<V>(es: Seq<(Seq<char>, V)>, k: Seq<char>) -> Option<V>
    decreases es.len(),
{
    if es.len() == 0 {
        None
    } else if es.last().0 == k {
        Some(es.last().1)
    } else {
        assoc_last(es.drop_last(), k)
    }
}

/// The association list without the entries stored under `k`, in order.
pub open spec fn assoc_drop<V>(es: Seq<(Seq<char>, V)>, k: Seq<char>) -> Seq<(Seq<char>, V)>
    decreases es.len(),
{
    if es.len() == 0 {
        Seq::<(Seq<char>, V)>::empty()
    } else if es.last().0 == k {
        assoc_drop(es.drop_last(), k)
    } else {
        assoc_drop(es.drop_last(), k).push(es.last())
    }
}

/// A map from audience names to permission lists, as an association list
/// with pairwise distinct keys.
#[derive(Debug)]
pub struct PermissionMap {
    pub entries: Vec<(String, Vec<String>)>,
}

impl View for PermissionMap {
    type V = Seq<(Seq<char>, Seq<Seq<char>>)>;

    open spec fn view(&self) -> Seq<(Seq<char>, Seq<Seq<char>>)> {
        Seq::new(self.entries@.len(), |i: int| (self.entries@[i].0@, self.entries@[i].1.deep_view()))
    }
}

impl PermissionMap {
    /// Keys are pairwise distinct.
    pub open spec fn wf(self) -> bool {
        forall|i: int, j: int| 0 <= i < j < self@.len() ==> self@[i].0 != self@[j].0
    }

    /// An empty map.
    pub fn empty() -> (r: PermissionMap)
        ensures
            r@.len() == 0,
            r.wf(),
    {
        PermissionMap { entries: Vec::new() }
    }

    /// The permissions stored for the audience, if any.
    pub fn get(&self, audience: &str) -> (r: Option<Vec<String>>)
        ensures
            match r {
                Some(ps) => assoc_last(self@, audience@) == Some(ps.deep_view()),
                None => assoc_last(self@, audience@) is None,
            },
    {
        let mut idx: usize = self.entries.len();
        proof {
            assert(self@.take(idx as int) =~= self@);
        }
        while idx > 0
            invariant
                idx <= self.entries@.len(),
                self@.len() == self.entries@.len(),
                assoc_last(self@.take(idx as int), audience@) == assoc_last(self@, audience@),
            decreases idx,
        {
            idx = idx - 1;
            let hit: bool = str_eq(self.entries[idx].0.as_str(), audience);
            proof {
                let t_new = self@.take(idx as int);
                let t_old = self@.take(idx + 1 as int);
                assert(t_old.drop_last() =~= t_new);
                assert(t_old.last() == self@[idx as int]);
            }
            if hit {
                return Some(clone_string_vec(&self.entries[idx].1));
            }
        }
        proof {
            assert(self@.take(0) =~= Seq::<(Seq<char>, Seq<Seq<char>>)>::empty());
        }
        None
    }

    /// Stores the permissions for the audience, replacing what was there:
    /// the resulting entries are the old ones without the audience, with
    /// the new pair appended.
    pub fn put(&mut self, audience: String, permissions: Vec<String>)
        requires
            old(self).wf(),
        ensures
            final(self)@ == assoc_drop(old(self)@, audience@).push(
                (audience@, permissions.deep_view()),
            ),
            final(self).wf(),
    {
        let mut out: Vec<(String, Vec<String>)> = Vec::new();
        let mut i: usize = 0;
        let ghost ov: Seq<(Seq<char>, Seq<Seq<char>>)> = self@;
        while i < self.entries.len()
            invariant
                i <= self.entries@.len(),
                ov == self@,
                ov.len() == self.entries@.len(),
                Seq::new(out@.len(), |l: int| (out@[l].0@, out@[l].1.deep_view())) =~~= assoc_drop(
                    ov.take(i as int),
                    audience@,
                ),
            decreases self.entries.len() - i,
        {
            let keep: bool = !str_eq(self.entries[i].0.as_str(), audience.as_str());
            let ghost before = Seq::new(out@.len(), |l: int| (out@[l].0@, out@[l].1.deep_view()));
            if keep {
                let k: String = self.entries[i].0.clone();
                let v: Vec<String> = clone_string_vec(&self.entries[i].1);
                out.push((k, v));
            }
            proof {
                let t_new = ov.take(i + 1 as int);
                assert(t_new.drop_last() =~= ov.take(i as int));
                assert(t_new.last() == ov[i as int]);
                let after = Seq::new(out@.len(), |l: int| (out@[l].0@, out@[l].1.deep_view()));
                if keep {
                    assert(after =~~= before.push(ov[i as int]));
                } else {
                    assert(after =~~= before);
                }
                assert(after =~~= assoc_drop(ov.take(i + 1 as int), audience@));
            }
            i = i + 1;
        }
        proof {
            assert(ov.take(ov.len() as int) =~= ov);
        }
        out.push((audience, permissions));
        self.entries = out;
        proof {
            assert(self@ =~~= assoc_drop(ov, audience@).push((audience@, permissions.deep_view())));
            lemma_assoc_drop_keys(ov, audience@);
            assert forall|a: int, b: int| 0 <= a < b < self@.len() implies self@[a].0
                != self@[b].0 by {
                lemma_assoc_drop_keys(ov, audience@);
            }
        }
    }

    /// Every entry of the map as owned pairs, in order.
    pub fn all(&self) -> (r: Vec<(String, Vec<String>)>)
        ensures
            Seq::new(r@.len(), |l: int| (r@[l].0@, r@[l].1.deep_view())) == self@,
    {
        let mut out: Vec<(String, Vec<String>)> = Vec::new();
        let mut i: usize = 0;
        while i < self.entries.len()
            invariant
                i <= self.entries@.len(),
                self@.len() == self.entries@.len(),
                Seq::new(out@.len(), |l: int| (out@[l].0@, out@[l].1.deep_view())) =~~= self@.take(
                    i as int,
                ),
            decreases self.entries.len() - i,
        {
            let k: String = self.entries[i].0.clone();
            let v: Vec<String> = clone_string_vec(&self.entries[i].1);
            let ghost before = Seq::new(out@.len(), |l: int| (out@[l].0@, out@[l].1.deep_view()));
            out.push((k, v));
            proof {
                let after = Seq::new(out@.len(), |l: int| (out@[l].0@, out@[l].1.deep_view()));
                assert(after =~~= before.push(self@[i as int]));
                assert(after =~~= self@.take(i + 1 as int));
            }
            i = i + 1;
        }
        proof {
            assert(self@.take(self@.len() as int) =~= self@);
            assert(Seq::new(out@.len(), |l: int| (out@[l].0@, out@[l].1.deep_view())) =~~= self@);
        }
        out
    }
}

/// Dropping a key keeps exactly the other keys, each once if they were
/// unique, and the key itself nowhere.
pub proof fn lemma_assoc_drop_keys<V>(es: Seq<(Seq<char>, V)>, k: Seq<char>)
    requires
        forall|i: int, j: int| 0 <= i < j < es.len() ==> es[i].0 != es[j].0,
    ensures
        forall|i: int|
            0 <= i < assoc_drop(es, k).len() ==> (#[trigger] assoc_drop(es, k)[i]).0 != k,
        forall|i: int, j: int|
            0 <= i < j < assoc_drop(es, k).len() ==> assoc_drop(es, k)[i].0 != assoc_drop(
                es,
                k,
            )[j].0,
        assoc_drop(es, k).len() <= es.len(),
        forall|i: int|
            0 <= i < assoc_drop(es, k).len() ==> (exists|j: int|
                0 <= j < es.len() && es[j] == #[trigger] assoc_drop(es, k)[i]),
    decreases es.len(),
{
    if es.len() > 0 {
        assert(forall|i: int, j: int|
            0 <= i < j < es.drop_last().len() ==> es.drop_last()[i].0 != es.drop_last()[j].0);
        lemma_assoc_drop_keys(es.drop_last(), k);
        if es.last().0 != k {
            let d = assoc_drop(es, k);
            let dprev = assoc_drop(es.drop_last(), k);
            assert(d == dprev.push(es.last()));
            assert forall|i: int, j: int| 0 <= i < j < d.len() implies d[i].0 != d[j].0 by {
                if j == d.len() - 1 {
                    let w = choose|w: int| 0 <= w < es.drop_last().len() && es.drop_last()[w] == d[i];
                    assert(es[w] == d[i]);
                    assert(es[w].0 != es.last().0);
                }
            }
            assert forall|i: int|
                0 <= i < d.len() implies (exists|j: int| 0 <= j < es.len() && es[j] == #[trigger] d[i]) by {
                if i < d.len() - 1 {
                    let w = choose|w: int| 0 <= w < es.drop_last().len() && es.drop_last()[w] == d[i];
                    assert(es[w] == d[i]);
                } else {
                    assert(es[es.len() - 1] == d[i]);
                }
            }
        }
    }
}

/// A map from authorization codes to audience names, as an association
/// list with pairwise distinct keys.
#[derive(Debug)]
pub struct CodeMap {
    pub entries: Vec<(String, String)>,
}

impl View for CodeMap {
    type V = Seq<(Seq<char>, Seq<char>)>;

    open spec fn view(&self) -> Seq<(Seq<char>, Seq<char>)> {
        Seq::new(self.entries@.len(), |i: int| (self.entries@[i].0@, self.entries@[i].1@))
    }
}

impl CodeMap {
    /// Keys are pairwise distinct.
    pub open spec fn wf(self) -> bool {
        forall|i: int, j: int| 0 <= i < j < self@.len() ==> self@[i].0 != self@[j].0
    }

    /// An empty map.
    pub fn empty() -> (r: CodeMap)
        ensures
            r@.len() == 0,
            r.wf(),
    {
        CodeMap { entries: Vec::new() }
    }

    /// The audience stored for the code, if any.
    pub fn get(&self, code: &str) -> (r: Option<String>)
        ensures
            match r {
                Some(a) => assoc_last(self@, code@) == Some(a@),
                None => assoc_last(self@, code@) is None,
            },
    {
        let mut idx: usize = self.entries.len();
        proof {
            assert(self@.take(idx as int) =~= self@);
        }
        while idx > 0
            invariant
                idx <= self.entries@.len(),
                self@.len() == self.entries@.len(),
                assoc_last(self@.take(idx as int), code@) == assoc_last(self@, code@),
            decreases idx,
        {
            idx = idx - 1;
            let hit: bool = str_eq(self.entries[idx].0.as_str(), code);
            proof {
                let t_new = self@.take(idx as int);
                let t_old = self@.take(idx + 1 as int);
                assert(t_old.drop_last() =~= t_new);
                assert(t_old.last() == self@[idx as int]);
            }
            if hit {
                return Some(self.entries[idx].1.clone());
            }
        }
        proof {
            assert(self@.take(0) =~= Seq::<(Seq<char>, Seq<char>)>::empty());
        }
        None
    }

    /// Stores the audience for the code, replacing what was there.
    pub fn put(&mut self, code: String, audience: String)
        requires
            old(self).wf(),
        ensures
            final(self)@ == assoc_drop(old(self)@, code@).push((code@, audience@)),
            final(self).wf(),
    {
        let mut out: Vec<(String, String)> = Vec::new();
        let mut i: usize = 0;
        let ghost ov: Seq<(Seq<char>, Seq<char>)> = self@;
        while i < self.entries.len()
            invariant
                i <= self.entries@.len(),
                ov == self@,
                ov.len() == self.entries@.len(),
                Seq::new(out@.len(), |l: int| (out@[l].0@, out@[l].1@)) =~~= assoc_drop(
                    ov.take(i as int),
                    code@,
                ),
            decreases self.entries.len() - i,
        {
            let keep: bool = !str_eq(self.entries[i].0.as_str(), code.as_str());
            let ghost before = Seq::new(out@.len(), |l: int| (out@[l].0@, out@[l].1@));
            if keep {
                let k: String = self.entries[i].0.clone();
                let v: String = self.entries[i].1.clone();
                out.push((k, v));
            }
            proof {
                let t_new = ov.take(i + 1 as int);
                assert(t_new.drop_last() =~= ov.take(i as int));
                assert(t_new.last() == ov[i as int]);
                let after = Seq::new(out@.len(), |l: int| (out@[l].0@, out@[l].1@));
                if keep {
                    assert(after =~~= before.push(ov[i as int]));
                } else {
                    assert(after =~~= before);
                }
                assert(after =~~= assoc_drop(ov.take(i + 1 as int), code@));
            }
            i = i + 1;
        }
        proof {
            assert(ov.take(ov.len() as int) =~= ov);
        }
        out.push((code, audience));
        self.entries = out;
        proof {
            assert(self@ =~~= assoc_drop(ov, code@).push((code@, audience@)));
            lemma_assoc_drop_keys(ov, code@);
            assert forall|a: int, b: int| 0 <= a < b < self@.len() implies self@[a].0
                != self@[b].0 by {
                lemma_assoc_drop_keys(ov, code@);
            }
        }
    }

    /// Every entry of the map as owned pairs, in order.
    pub fn all(&self) -> (r: Vec<(String, String)>)
        ensures
            Seq::new(r@.len(), |l: int| (r@[l].0@, r@[l].1@)) == self@,
    {
        let mut out: Vec<(String, String)> = Vec::new();
        let mut i: usize = 0;
        while i < self.entries.len()
            invariant
                i <= self.entries@.len(),
                self@.len() == self.entries@.len(),
                Seq::new(out@.len(), |l: int| (out@[l].0@, out@[l].1@)) =~~= self@.take(i as int),
            decreases self.entries.len() - i,
        {
            let k: String = self.entries[i].0.clone();
            let v: String = self.entries[i].1.clone();
            let ghost before = Seq::new(out@.len(), |l: int| (out@[l].0@, out@[l].1@));
            out.push((k, v));
            proof {
                let after = Seq::new(out@.len(), |l: int| (out@[l].0@, out@[l].1@));
                assert(after =~~= before.push(self@[i as int]));
                assert(after =~~= self@.take(i + 1 as int));
            }
            i = i + 1;
        }
        proof {
            assert(self@.take(self@.len() as int) =~= self@);
            assert(Seq::new(out@.len(), |l: int| (out@[l].0@, out@[l].1@)) =~~= self@);
        }
        out
    }
}

/// The lock invariant of the key-set store: a full, well-formed set.
pub struct JwksPred;

impl RwLockPredicate<Jwks> for JwksPred {
    open spec fn inv(self, j: Jwks) -> bool {
        jwks_wf(j@) && j@.len() == 3
    }
}

/// The concurrency-safe holder of the current key set. Readers take cheap
/// snapshots; rotation and revocation compute a new set from the current
/// one and install it atomically. Every set that ever sits in the store
/// holds exactly three well-formed keys with pairwise distinct ids.
pub struct JwksStore {
    cache: RwLock<Jwks, JwksPred>,
}

impl JwksStore {
    /// Creates the store around a freshly generated key set.
    pub fn new() -> (r: Result<JwksStore, Error>)
        ensures
            r matches Err(e) ==> e == Error::Crypto,
    {
        let jwks: Jwks = match Jwks::new() {
            Ok(j) => j,
            Err(e) => {
                return Err(e);
            },
        };
        Ok(JwksStore { cache: RwLock::new(jwks, Ghost(JwksPred)) })
    }

    /// A snapshot of the current key set: three well-formed keys with
    /// pairwise distinct ids.
    pub fn get(&self) -> (r: Result<Jwks, Error>)
        ensures
            r matches Ok(j) && jwks_wf(j@) && j@.len() == 3,
    {
        let handle = self.cache.acquire_read();
        let j: Jwks = handle.borrow().clone();
        handle.release_read();
        Ok(j)
    }

    /// One key of the current set, chosen uniformly for signing; the size
    /// invariant makes the empty-set failure unreachable.
    pub fn random_jwk(&self) -> (r: Result<Jwk, Error>)
        ensures
            r matches Ok(k) && k@.wf(),
    {
        let snapshot: Jwks = match self.get() {
            Ok(j) => j,
            Err(e) => {
                return Err(e);
            },
        };
        match snapshot.random_jwk() {
            Ok(k) => Ok(k),
            Err(e) => {
                proof {
                    assert(false);
                }
                Err(e)
            },
        }
    }

    /// Replaces the current set by its rotation: one fresh key in, the
    /// oldest key out, atomically.
    pub fn rotate_keys(&self) -> (r: Result<(), Error>)
        ensures
            r matches Err(e) ==> e == Error::Crypto,
    {
        let (current, handle) = self.cache.acquire_write();
        match current.rotate_keys() {
            Ok(next) => {
                handle.release_write(next);
                Ok(())
            },
            Err(e) => {
                handle.release_write(current);
                Err(e)
            },
        }
    }

    /// Replaces the current set by three fresh keys, atomically; every id
    /// present before is absent afterwards.
    pub fn revoke_keys(&self) -> (r: Result<(), Error>)
        ensures
            r matches Err(e) ==> e == Error::Crypto,
    {
        let (current, handle) = self.cache.acquire_write();
        match current.revoke_keys() {
            Ok(next) => {
                handle.release_write(next);
                Ok(())
            },
            Err(e) => {
                handle.release_write(current);
                Err(e)
            },
        }
    }
}

/// The audience configuration as name/permissions pairs, in order.
pub open spec fn audience_entries(v: Seq<Audience>) -> Seq<(Seq<char>, Seq<Seq<char>>)> {
    Seq::new(v.len(), |i: int| (v[i].name@, v[i].permissions.deep_view()))
}

/// The map contents after storing the first `i` entries in order: each
/// entry replaces whatever its name held before, so a repeated name keeps
/// its last configured permissions.
pub open spec fn seeded_entries(es: Seq<(Seq<char>, Seq<Seq<char>>)>, i: int) -> Seq<
    (Seq<char>, Seq<Seq<char>>),
>
    decreases i,
{
    if i <= 0 {
        Seq::<(Seq<char>, Seq<Seq<char>>)>::empty()
    } else {
        assoc_drop(seeded_entries(es, i - 1), es[i - 1].0).push(es[i - 1])
    }
}

/// Builds the permission map seeded with the configured audiences: exactly
/// the configured entries, stored in order.
pub fn seeded_permission_map(audiences: &Vec<Audience>) -> (m: PermissionMap)
    ensures
        m.wf(),
        m@ == seeded_entries(audience_entries(audiences@), audiences@.len() as int),
{
    let mut m: PermissionMap = PermissionMap::empty();
    let mut i: usize = 0;
    proof {
        assert(m@ =~= seeded_entries(audience_entries(audiences@), 0));
    }
    while i < audiences.len()
        invariant
            i <= audiences@.len(),
            m.wf(),
            m@ == seeded_entries(audience_entries(audiences@), i as int),
        decreases audiences.len() - i,
    {
        let name: String = audiences[i].name.clone();
        let perms: Vec<String> = clone_string_vec(&audiences[i].permissions);
        proof {
            assert(audience_entries(audiences@)[i as int] == (
                audiences@[i as int].name@,
                audiences@[i as int].permissions.deep_view(),
            ));
        }
        m.put(name, perms);
        proof {
            assert(m@ =~~= seeded_entries(audience_entries(audiences@), i + 1 as int));
        }
        i = i + 1;
    }
    m
}

/// The lock invariant of the audience store: distinct audience keys.
pub struct PermissionsPred;

impl RwLockPredicate<PermissionMap> for PermissionsPred {
    open spec fn inv(self, m: PermissionMap) -> bool {
        m.wf()
    }
}

/// The concurrency-safe audience→permissions store.
pub struct Audiences {
    cache: RwLock<PermissionMap, PermissionsPred>,
}

impl Audiences {
    /// A store seeded with the configured audiences, in order; a repeated
    /// audience name keeps its last configured permissions. The seeded
    /// contents are pinned by [`seeded_permission_map`].
    pub fn new(audiences: &Vec<Audience>) -> (r: Audiences) {
        let m: PermissionMap = seeded_permission_map(audiences);
        Audiences { cache: RwLock::new(m, Ghost(PermissionsPred)) }
    }

    /// The permissions currently stored for the audience; an unknown
    /// audience has none.
    pub fn get_permissions(&self, audience: &str) -> (r: Result<Vec<String>, Error>)
        ensures
            r is Ok,
    {
        let handle = self.cache.acquire_read();
        let found: Option<Vec<String>> = handle.borrow().get(audience);
        handle.release_read();
        match found {
            Some(ps) => Ok(ps),
            None => Ok(Vec::new()),
        }
    }

    /// Stores the permissions for the audience, replacing what was there.
    pub fn put_permissions(&self, audience: &str, permissions: Vec<String>) -> (r: Result<
        (),
        Error,
    >)
        ensures
            r is Ok,
    {
        let (mut m, handle) = self.cache.acquire_write();
        m.put(audience.to_owned(), permissions);
        handle.release_write(m);
        Ok(())
    }

    /// Every audience with its permissions.
    pub fn all(&self) -> (r: Result<Vec<(String, Vec<String>)>, Error>)
        ensures
            r is Ok,
    {
        let handle = self.cache.acquire_read();
        let entries: Vec<(String, Vec<String>)> = handle.borrow().all();
        handle.release_read();
        Ok(entries)
    }
}

/// The lock invariant of the authorization store: distinct codes.
pub struct AuthorizationsPred;

impl RwLockPredicate<CodeMap> for AuthorizationsPred {
    open spec fn inv(self, m: CodeMap) -> bool {
        m.wf()
    }
}

/// The concurrency-safe authorization-code→audience store.
pub struct Authorizations {
    cache: RwLock<CodeMap, AuthorizationsPred>,
}

impl Authorizations {
    /// An empty store.
    pub fn new() -> (r: Authorizations) {
        Authorizations { cache: RwLock::new(CodeMap::empty(), Ghost(AuthorizationsPred)) }
    }

    /// The audience a code was issued for; an unknown code maps to the
    /// empty audience, as the login flow never checks codes out.
    pub fn get_audience_for_authorization(&self, code: &str) -> (r: Result<String, Error>)
        ensures
            r is Ok,
    {
        let handle = self.cache.acquire_read();
        let found: Option<String> = handle.borrow().get(code);
        handle.release_read();
        match found {
            Some(a) => Ok(a),
            None => Ok(String::new()),
        }
    }

    /// Stores the audience for a code.
    pub fn put_authorization(&self, code: &str, audience: String) -> (r: Result<(), Error>)
        ensures
            r is Ok,
    {
        let (mut m, handle) = self.cache.acquire_write();
        m.put(code.to_owned(), audience);
        handle.release_write(m);
        Ok(())
    }

    /// Every code with its audience.
    pub fn all(&self) -> (r: Result<Vec<(String, String)>, Error>)
        ensures
            r is Ok,
    {
        let handle = self.cache.acquire_read();
        let entries: Vec<(String, String)> = handle.borrow().all();
        handle.release_read();
        Ok(entries)
    }
}

/// The lock invariant of the custom-claims store: none.
pub struct CustomClaimsPred;

impl RwLockPredicate<Vec<CustomField>> for CustomClaimsPred {
    open spec fn inv(self, v: Vec<CustomField>) -> bool {
        true
    }
}

/// The concurrency-safe store of the custom claims merged into every
/// access token.
pub struct CustomClaims {
    cache: RwLock<Vec<CustomField>, CustomClaimsPred>,
}

impl CustomClaims {
    /// A store seeded with the configured access-token custom claims.
    pub fn new(access_token: &AccessToken) -> (r: CustomClaims) {
        CustomClaims {
            cache: RwLock::new(
                clone_custom_fields(&access_token.custom_claims),
                Ghost(CustomClaimsPred),
            ),
        }
    }

    /// An empty store.
    pub fn empty() -> (r: CustomClaims) {
        CustomClaims { cache: RwLock::new(Vec::new(), Ghost(CustomClaimsPred)) }
    }

    /// Appends one custom field.
    pub fn add_custom_field(&self, custom_field: CustomField) -> (r: Result<(), Error>)
        ensures
            r is Ok,
    {
        let (mut v, handle) = self.cache.acquire_write();
        v.push(custom_field);
        handle.release_write(v);
        Ok(())
    }

    /// Replaces the custom fields wholesale.
    pub fn put_custom_fields(&self, custom_fields: Vec<CustomField>) -> (r: Result<(), Error>)
        ensures
            r is Ok,
    {
        let (v, handle) = self.cache.acquire_write();
        handle.release_write(custom_fields);
        Ok(())
    }

    /// The current custom fields.
    pub fn all(&self) -> (r: Result<Vec<CustomField>, Error>)
        ensures
            r is Ok,
    {
        let handle = self.cache.acquire_read();
        let v: Vec<CustomField> = clone_custom_fields(handle.borrow());
        handle.release_read();
        Ok(v)
    }
}

/// The lock invariant of the user-info store: none.
pub struct UserInfoPred;

impl RwLockPredicate<UserInfo> for UserInfoPred {
    open spec fn inv(self, u: UserInfo) -> bool {
        true
    }
}

/// The concurrency-safe store of the user profile carried by ID tokens.
pub struct UserInfoStore {
    cache: RwLock<UserInfo, UserInfoPred>,
}

impl UserInfoStore {
    /// A store seeded with the given profile.
    pub fn new(user_info: UserInfo) -> (r: UserInfoStore) {
        UserInfoStore { cache: RwLock::new(user_info, Ghost(UserInfoPred)) }
    }

    /// The current profile.
    pub fn get(&self) -> (r: Result<UserInfo, Error>)
        ensures
            r is Ok,
    {
        let handle = self.cache.acquire_read();
        let u: UserInfo = handle.borrow().clone();
        handle.release_read();
        Ok(u)
    }

    /// Applies a sparse update to the current profile — a set field
    /// replaces, an unset field keeps — installs the merged profile, and
    /// returns it: the result is the merge of some held profile with the
    /// patch, so every field the patch sets is the patch's value.
    pub fn update(&self, patch: UpdateUserInfoRequest) -> (r: Result<UserInfo, Error>)
        ensures
            r matches Ok(u) && (exists|cur: UserInfoView|
                u@ == crate::user_info::merged_view(cur, patch)),
    {
        let (current, handle) = self.cache.acquire_write();
        let ghost cur: UserInfoView = current@;
        let merged: UserInfo = current.merged(&patch);
        let out: UserInfo = merged.clone();
        handle.release_write(merged);
        proof {
            assert(out@ == crate::user_info::merged_view(cur, patch));
        }
        Ok(out)
    }

    /// Replaces the profile wholesale.
    pub fn replace(&self, user_info: UserInfo) -> (r: Result<(), Error>)
        ensures
            r is Ok,
    {
        let (current, handle) = self.cache.acquire_write();
        handle.release_write(user_info);
        Ok(())
    }
}

} // verus!
