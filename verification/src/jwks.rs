//! The signing keys and the key set.
//!
//! A signing key couples freshly generated RSA material and a self-signed
//! certificate with its public JWK fields; the key set holds three of them,
//! rotates by dropping the oldest for a fresh one, and revokes by replacing
//! all three. Tokens are signed against one key and verified by looking its
//! `kid` up in the current set; a key that has left the set no longer
//! verifies anything, which is exactly how rotation and revocation
//! invalidate outstanding tokens. The private key PEM never appears in the
//! published JWKS document.

use vstd::prelude::*;

use crate::b64::{b64_std_encode, b64u_dec, b64u_decode_str, b64u_encode, b64u_of};
use crate::crypto::{
    exponent_b64_of, generate_certificate, generate_private_key, modulus_b64_of, now_unix,
    random_below, random_token, rs256_sig_of, rs256_sign, rs256_valid, rs256_verify,
    RsaKeyMaterial,
};
use crate::error::Error;
use crate::json::{
    entries_view, entries_get, lookup_last, obj_chars, parse_object, serialize_object, sp_json,
    JsonVal, JsonValue,
};
use crate::jwt::{dot_split3, no_dot, split_token};
use crate::text::{chars_to_string, clone_string_vec, push_str_chars, str_eq};

verus! {

/// The mathematical shape of a signing key.
#[verifier::ext_equal]
pub struct JwkView {
    pub kty: Seq<char>,
    pub n: Seq<char>,
    pub e: Seq<char>,
    pub alg: Seq<char>,
    pub kid: Seq<char>,
    pub key_use: Seq<char>,
    pub x5c: Seq<Seq<char>>,
    pub pem: Seq<u8>,
}

impl JwkView {
    /// Well-formedness: the fixed JWK fields carry their fixed values and
    /// the public components belong to the held private key.
    pub open spec fn wf(self) -> bool {
        &&& self.kty == ("RSA")@
        &&& self.alg == ("RS256")@
        &&& self.key_use == ("sig")@
        &&& self.n == modulus_b64_of(self.pem)
        &&& self.e == exponent_b64_of(self.pem)
    }
}

/// One signing key: the public JWK fields and the private key PEM. The PEM
/// is used only to sign; the published JWKS document excludes it.
#[derive(Debug)]
pub struct Jwk {
    pub kty: String,
    pub n: String,
    pub e: String,
    pub alg: String,
    pub kid: String,
    pub key_use: String,
    pub x5c: Vec<String>,
    pub private_key_pem: Vec<u8>,
}

impl View for Jwk {
    type V = JwkView;

    open spec fn view(&self) -> JwkView {
        JwkView {
            kty: self.kty@,
            n: self.n@,
            e: self.e@,
            alg: self.alg@,
            kid: self.kid@,
            key_use: self.key_use@,
            x5c: self.x5c.deep_view(),
            pem: self.private_key_pem@,
        }
    }
}

impl DeepView for Jwk {
    type V = JwkView;

    open spec fn deep_view(&self) -> JwkView {
        self.view()
    }
}

impl Clone for Jwk {
    /// A clone denotes the same key.
    fn clone(&self) -> (r: Self)
        ensures
            r@ == self@,
    {
        let r = Jwk {
            kty: self.kty.clone(),
            n: self.n.clone(),
            e: self.e.clone(),
            alg: self.alg.clone(),
            kid: self.kid.clone(),
            key_use: self.key_use.clone(),
            x5c: clone_string_vec(&self.x5c),
            private_key_pem: clone_bytes(&self.private_key_pem),
        };
        proof {
            assert(r@ =~~= self@);
        }
        r
    }
}

/// Clones a byte vector.
fn clone_bytes(v: &Vec<u8>) -> (r: Vec<u8>)
    ensures
        r@ == v@,
{
    let mut out: Vec<u8> = Vec::new();
    let mut i: usize = 0;
    while i < v.len()
        invariant
            i <= v.len(),
            out@ =~= v@.take(i as int),
        decreases v.len() - i,
    {
        out.push(v[i]);
        proof {
            assert(out@ =~= v@.take(i + 1 as int));
        }
        i = i + 1;
    }
    proof {
        assert(v@.take(v@.len() as int) =~= v@);
    }
    out
}

impl Jwk {
    /// Generates a fresh signing key: new RSA material, a new self-signed
    /// certificate for it, and a random `kid`.
    pub fn new() -> (r: Result<Jwk, Error>)
        ensures
            match r {
                Ok(k) => k@.wf() && k@.kid.len() == 36 && k@.x5c.len() == 1,
                Err(e) => e == Error::Crypto,
            },
    {
        let material: RsaKeyMaterial = match generate_private_key() {
            Ok(m) => m,
            Err(e) => {
                return Err(e);
            },
        };
        let der: Vec<u8> = match generate_certificate(&material.pem) {
            Ok(d) => d,
            Err(e) => {
                return Err(e);
            },
        };
        let cert: String = b64_std_encode(&der);
        let mut x5c: Vec<String> = Vec::new();
        x5c.push(cert);
        let kid: String = random_token();
        Ok(
            Jwk {
                kty: ("RSA").to_owned(),
                n: material.n,
                e: material.e,
                alg: ("RS256").to_owned(),
                kid,
                key_use: ("sig").to_owned(),
                x5c,
                private_key_pem: material.pem,
            },
        )
    }

    /// The key id.
    pub fn kid(&self) -> (r: &str)
        ensures
            r@ == self@.kid,
    {
        self.kid.as_str()
    }

    /// The declared algorithm.
    pub fn alg(&self) -> (r: &str)
        ensures
            r@ == self@.alg,
    {
        self.alg.as_str()
    }

    /// The base64url modulus of the public key.
    pub fn modulus(&self) -> (r: &str)
        ensures
            r@ == self@.n,
    {
        self.n.as_str()
    }

    /// The base64url public exponent.
    pub fn exponent(&self) -> (r: &str)
        ensures
            r@ == self@.e,
    {
        self.e.as_str()
    }

    /// The private key as PKCS#8 PEM bytes; never part of the published
    /// key set document.
    pub fn private_key_pem(&self) -> (r: &Vec<u8>)
        ensures
            r@ == self@.pem,
    {
        &self.private_key_pem
    }
}

/// The header entries of a token signed by the key with id `kid`.
pub open spec fn header_entries_spec(kid: Seq<char>) -> Seq<(Seq<char>, JsonVal)> {
    seq![
        (("typ")@, JsonVal::Str(("JWT")@)),
        (("alg")@, JsonVal::Str(("RS256")@)),
        (("kid")@, JsonVal::Str(kid)),
    ]
}

/// The signing input of a compact token: base64url header, a dot, base64url
/// payload.
pub open spec fn signing_input_spec(kid: Seq<char>, payload: Seq<char>) -> Seq<char> {
    b64u_of(obj_chars(header_entries_spec(kid))) + seq!['.'] + b64u_of(payload)
}

/// The compact token signed by the key in `pem` under id `kid` over the
/// JSON payload text.
pub open spec fn jwt_spec(pem: Seq<u8>, kid: Seq<char>, payload: Seq<char>) -> Seq<char> {
    signing_input_spec(kid, payload) + seq!['.'] + rs256_sig_of(pem, signing_input_spec(kid, payload))
}

/// What holds of every token [`Jwk::encode`] produced: its base64url parts
/// decode back, none of them contains a dot, and its signature verifies
/// under the signing key's public components.
pub open spec fn encode_facts(pem: Seq<u8>, kid: Seq<char>, payload: Seq<char>) -> bool {
    let h64 = b64u_of(obj_chars(header_entries_spec(kid)));
    let p64 = b64u_of(payload);
    let si = signing_input_spec(kid, payload);
    let sig = rs256_sig_of(pem, si);
    &&& b64u_dec(h64) == Some(obj_chars(header_entries_spec(kid)))
    &&& b64u_dec(p64) == Some(payload)
    &&& no_dot(h64)
    &&& no_dot(p64)
    &&& no_dot(sig)
    &&& rs256_valid(modulus_b64_of(pem), exponent_b64_of(pem), si, sig)
}

impl Jwk {
    /// Signs the payload entries as a compact RS256 JWT whose header names
    /// this key. The token is exactly the framing of the serialized payload
    /// signed by this key, and everything needed to verify it back holds.
    pub fn encode(&self, entries: &Vec<(String, JsonValue)>) -> (r: Result<String, Error>)
        ensures
            match r {
                Ok(t) => t@ == jwt_spec(
                    self@.pem,
                    self@.kid,
                    obj_chars(entries_view(entries@)),
                ) && encode_facts(self@.pem, self@.kid, obj_chars(entries_view(entries@))),
                Err(e) => e == Error::Signing,
            },
    {
        let ghost payload_spec: Seq<char> = obj_chars(entries_view(entries@));
        let mut header: Vec<(String, JsonValue)> = Vec::new();
        header.push((("typ").to_owned(), JsonValue::Str(("JWT").to_owned())));
        header.push((("alg").to_owned(), JsonValue::Str(("RS256").to_owned())));
        header.push((("kid").to_owned(), JsonValue::Str(self.kid.clone())));
        proof {
            assert(entries_view(header@) =~~= header_entries_spec(self@.kid));
        }
        let header_json: String = serialize_object(&header);
        let payload_json: String = serialize_object(entries);
        let h64: String = b64u_encode(header_json.as_str());
        let p64: String = b64u_encode(payload_json.as_str());
        let mut si: String = h64;
        si.append(".");
        si.append(p64.as_str());
        proof {
            reveal_strlit(".");
            assert((".")@ =~= seq!['.']);
            assert(si@ == signing_input_spec(self@.kid, payload_spec));
        }
        match rs256_sign(&self.private_key_pem, si.as_str()) {
            Ok(sig) => {
                let mut token: String = si;
                token.append(".");
                token.append(sig.as_str());
                proof {
                    reveal_strlit(".");
                    assert((".")@ =~= seq!['.']);
                    assert(token@ == jwt_spec(self@.pem, self@.kid, payload_spec));
                }
                Ok(token)
            },
            Err(e) => Err(e),
        }
    }
}

/// Whether all keys are well-formed and their ids pairwise distinct: the
/// key-set invariant; in particular the three `kid`s of a full set never
/// collide.
pub open spec fn jwks_wf(keys: Seq<JwkView>) -> bool {
    &&& (forall|i: int| 0 <= i < keys.len() ==> (#[trigger] keys[i]).wf())
    &&& (forall|i: int, j: int| 0 <= i < j < keys.len() ==> keys[i].kid != keys[j].kid)
}

/// The first key with the given id, if any.
pub open spec fn find_key(keys: Seq<JwkView>, kid: Seq<char>) -> Option<JwkView>
    decreases keys.len(),
{
    if keys.len() == 0 {
        None
    } else if keys[0].kid == kid {
        Some(keys[0])
    } else {
        find_key(keys.skip(1), kid)
    }
}

/// Under distinct ids, the key found for a held id is that very key.
pub proof fn lemma_find_key_at(keys: Seq<JwkView>, i: int)
    requires
        jwks_wf(keys),
        0 <= i < keys.len(),
    ensures
        find_key(keys, keys[i].kid) == Some(keys[i]),
    decreases i,
{
    if i == 0 {
    } else {
        assert(keys[0].kid != keys[i].kid);
        assert(keys.skip(1)[i - 1] == keys[i]);
        assert(jwks_wf(keys.skip(1))) by {
            assert(forall|a: int|
                0 <= a < keys.skip(1).len() ==> keys.skip(1)[a] == keys[a + 1]);
        }
        lemma_find_key_at(keys.skip(1), i - 1);
    }
}

/// The rotating key set.
#[derive(Debug)]
pub struct Jwks {
    pub keys: Vec<Jwk>,
}

impl View for Jwks {
    type V = Seq<JwkView>;

    open spec fn view(&self) -> Seq<JwkView> {
        self.keys.deep_view()
    }
}

impl Clone for Jwks {
    /// A clone denotes the same key set.
    fn clone(&self) -> (r: Self)
        ensures
            r@ == self@,
    {
        let mut out: Vec<Jwk> = Vec::new();
        let mut i: usize = 0;
        while i < self.keys.len()
            invariant
                i <= self.keys.len(),
                out.deep_view() =~~= self.keys.deep_view().take(i as int),
            decreases self.keys.len() - i,
        {
            let k: Jwk = self.keys[i].clone();
            let ghost out_old: Seq<JwkView> = out.deep_view();
            out.push(k);
            proof {
                assert(out.deep_view().len() == out_old.len() + 1);
                assert(out.deep_view()[out_old.len() as int] == k@);
                assert(forall|l: int| 0 <= l < out_old.len() ==> out.deep_view()[l] == out_old[l]);
                assert(self.keys.deep_view().take(i as int).len() == i);
                assert(out.deep_view() =~~= self.keys.deep_view().take(i + 1 as int));
            }
            i = i + 1;
        }
        proof {
            assert(self.keys.deep_view().take(self.keys@.len() as int) =~~= self.keys.deep_view());
        }
        Jwks { keys: out }
    }
}

/// Whether some key of the list carries the id.
fn keys_contain_kid(keys: &Vec<Jwk>, kid: &str) -> (r: bool)
    ensures
        r == exists|i: int| 0 <= i < keys.deep_view().len() && (#[trigger] keys.deep_view()[i]).kid
            == kid@,
{
    let mut i: usize = 0;
    while i < keys.len()
        invariant
            i <= keys.len(),
            forall|k: int| 0 <= k < i ==> (#[trigger] keys.deep_view()[k]).kid != kid@,
        decreases keys.len() - i,
    {
        if str_eq(keys[i].kid.as_str(), kid) {
            proof {
                assert(keys.deep_view()[i as int].kid == kid@);
            }
            return true;
        }
        i = i + 1;
    }
    false
}

/// Generates a fresh key whose id collides with no key of `existing`.
/// Generation is retried a bounded number of times; exhaustion is reported
/// as a generation failure.
fn fresh_jwk(existing: &Vec<Jwk>) -> (r: Result<Jwk, Error>)
    ensures
        match r {
            Ok(k) => k@.wf() && k@.kid.len() == 36 && (forall|i: int|
                0 <= i < existing.deep_view().len() ==> (#[trigger] existing.deep_view()[i]).kid
                    != k@.kid),
            Err(e) => e == Error::Crypto,
        },
{
    let mut attempts: usize = 0;
    while attempts < 32
        invariant
            attempts <= 32,
        decreases 32 - attempts,
    {
        let k: Jwk = match Jwk::new() {
            Ok(k) => k,
            Err(e) => {
                return Err(e);
            },
        };
        if !keys_contain_kid(existing, k.kid.as_str()) {
            return Ok(k);
        }
        attempts = attempts + 1;
    }
    Err(Error::Crypto)
}

impl Jwks {
    /// Generates a full set of three fresh keys with pairwise distinct ids.
    /// Fails atomically: no partial set is ever produced.
    pub fn new() -> (r: Result<Jwks, Error>)
        ensures
            match r {
                Ok(j) => j@.len() == 3 && jwks_wf(j@),
                Err(e) => e == Error::Crypto,
            },
    {
        let mut keys: Vec<Jwk> = Vec::new();
        let mut count: usize = 0;
        while count < 3
            invariant
                count <= 3,
                keys.deep_view().len() == count,
                jwks_wf(keys.deep_view()),
            decreases 3 - count,
        {
            let k: Jwk = match fresh_jwk(&keys) {
                Ok(k) => k,
                Err(e) => {
                    return Err(e);
                },
            };
            let ghost old_keys: Seq<JwkView> = keys.deep_view();
            keys.push(k);
            proof {
                assert(keys.deep_view().len() == old_keys.len() + 1);
                assert(keys.deep_view()[old_keys.len() as int] == k@);
                assert(forall|i: int|
                    0 <= i < old_keys.len() ==> keys.deep_view()[i] == old_keys[i]);
                let ghost nv: Seq<JwkView> = keys.deep_view();
                assert forall|a: int| 0 <= a < nv.len() implies (#[trigger] nv[a]).wf() by {
                    if a < old_keys.len() {
                        assert(nv[a] == old_keys[a]);
                        assert(old_keys[a].wf());
                    } else {
                        assert(nv[a] == k@);
                    }
                }
                assert forall|a: int, b: int| 0 <= a < b < nv.len() implies nv[a].kid
                    != nv[b].kid by {
                    if b == old_keys.len() {
                        assert(nv[a] == old_keys[a]);
                        assert(old_keys[a].kid != k@.kid);
                        assert(nv[b] == k@);
                    } else {
                        assert(nv[a] == old_keys[a]);
                        assert(nv[b] == old_keys[b]);
                        assert(old_keys[a].kid != old_keys[b].kid);
                    }
                }
                assert(jwks_wf(keys.deep_view()));
            }
            count = count + 1;
        }
        Ok(Jwks { keys })
    }

    /// Looks the id up in the set: the first key carrying it, if any.
    pub fn find(&self, kid: String) -> (r: Option<Jwk>)
        ensures
            match r {
                Some(k) => find_key(self@, kid@) == Some(k@),
                None => find_key(self@, kid@) is None,
            },
    {
        let mut i: usize = 0;
        proof {
            assert(self@.skip(0) =~= self@);
        }
        while i < self.keys.len()
            invariant
                i <= self.keys.len(),
                find_key(self@, kid@) == find_key(self@.skip(i as int), kid@),
            decreases self.keys.len() - i,
        {
            proof {
                assert(self@.skip(i as int)[0] == self@[i as int]);
            }
            if str_eq(self.keys[i].kid.as_str(), kid.as_str()) {
                let k: Jwk = self.keys[i].clone();
                proof {
                    assert(find_key(self@.skip(i as int), kid@) == Some(self@[i as int]));
                }
                return Some(k);
            }
            proof {
                assert(self@.skip(i as int).skip(1) =~= self@.skip(i + 1 as int));
            }
            i = i + 1;
        }
        proof {
            assert(self@.skip(i as int).len() == 0);
        }
        None
    }

    /// Picks one key of the set uniformly for signing; fails only on an
    /// empty set, which the size invariant makes unreachable.
    pub fn random_jwk(&self) -> (r: Result<Jwk, Error>)
        ensures
            match r {
                Ok(k) => self@.len() > 0 && (exists|i: int|
                    0 <= i < self@.len() && k@ == #[trigger] self@[i]),
                Err(e) => self@.len() == 0 && e == Error::EmptyJwks,
            },
    {
        if self.keys.len() == 0 {
            return Err(Error::EmptyJwks);
        }
        let idx: usize = random_below(self.keys.len());
        let k: Jwk = self.keys[idx].clone();
        proof {
            assert(k@ == self@[idx as int]);
        }
        Ok(k)
    }

    /// Rotates the set: a fresh key, whose id collides with nothing
    /// currently held, is put first and the oldest (last) key is dropped.
    /// Tokens signed by the dropped key stop verifying.
    pub fn rotate_keys(&self) -> (r: Result<Jwks, Error>)
        ensures
            match r {
                Ok(j) => {
                    &&& j@.len() == self@.len()
                    &&& (self@.len() > 0 ==> j@[0].wf() && (forall|i: int|
                        0 <= i < self@.len() ==> (#[trigger] self@[i]).kid != j@[0].kid) && (
                    forall|i: int| 1 <= i < j@.len() ==> j@[i] == self@[i - 1]))
                    &&& (jwks_wf(self@) ==> jwks_wf(j@))
                },
                Err(e) => e == Error::Crypto,
            },
    {
        if self.keys.len() == 0 {
            let empty: Vec<Jwk> = Vec::new();
            proof {
                assert(empty.deep_view() =~= self@);
            }
            return Ok(Jwks { keys: empty });
        }
        let fresh: Jwk = match fresh_jwk(&self.keys) {
            Ok(k) => k,
            Err(e) => {
                return Err(e);
            },
        };
        let mut keys: Vec<Jwk> = Vec::new();
        keys.push(fresh);
        let mut i: usize = 0;
        while i < self.keys.len() - 1
            invariant
                self.keys@.len() > 0,
                i <= self.keys@.len() - 1,
                keys.deep_view().len() == i + 1,
                keys.deep_view()[0].wf(),
                forall|l: int|
                    0 <= l < self@.len() ==> (#[trigger] self@[l]).kid != keys.deep_view()[0].kid,
                forall|l: int| 1 <= l < keys.deep_view().len() ==> keys.deep_view()[l] == self@[l
                    - 1],
            decreases self.keys.len() - i,
        {
            let k: Jwk = self.keys[i].clone();
            let ghost old_out: Seq<JwkView> = keys.deep_view();
            keys.push(k);
            proof {
                assert(keys.deep_view().len() == old_out.len() + 1);
                assert(keys.deep_view()[old_out.len() as int] == k@);
                assert(k@ == self@[i as int]);
                assert(forall|l: int| 0 <= l < old_out.len() ==> keys.deep_view()[l] == old_out[l]);
                assert forall|l: int| 1 <= l < keys.deep_view().len() implies keys.deep_view()[l]
                    == self@[l - 1] by {
                    if l < old_out.len() {
                        assert(keys.deep_view()[l] == old_out[l]);
                    } else {
                        assert(l == old_out.len());
                        assert(keys.deep_view()[l] == k@);
                    }
                }
            }
            i = i + 1;
        }
        let r = Jwks { keys };
        proof {
            assert(r@.len() == self@.len());
            if jwks_wf(self@) {
                assert forall|a: int, b: int| 0 <= a < b < r@.len() implies r@[a].kid
                    != r@[b].kid by {
                    if a == 0 {
                        assert(r@[b] == self@[b - 1]);
                    } else {
                        assert(r@[a] == self@[a - 1]);
                        assert(r@[b] == self@[b - 1]);
                    }
                }
                assert(forall|a: int| 0 <= a < r@.len() ==> (#[trigger] r@[a]).wf());
            }
        }
        Ok(r)
    }

    /// Revokes the whole set: three fresh keys replace it, none of whose
    /// ids was present before, so every previously issued token stops
    /// verifying.
    pub fn revoke_keys(&self) -> (r: Result<Jwks, Error>)
        ensures
            match r {
                Ok(j) => {
                    &&& j@.len() == 3
                    &&& jwks_wf(j@)
                    &&& (forall|a: int, b: int|
                        0 <= a < j@.len() && 0 <= b < self@.len() ==> (#[trigger] j@[a]).kid != (
                        #[trigger] self@[b]).kid)
                },
                Err(e) => e == Error::Crypto,
            },
    {
        let cloned: Jwks = self.clone();
        let mut avoid: Vec<Jwk> = cloned.keys;
        let ghost orig: Seq<JwkView> = self@;
        let mut fresh: Vec<Jwk> = Vec::new();
        let mut count: usize = 0;
        proof {
            assert(avoid.deep_view() == orig);
            assert(fresh.deep_view().len() == 0);
            assert(jwks_wf(fresh.deep_view()));
        }
        while count < 3
            invariant
                count <= 3,
                fresh.deep_view().len() == count,
                avoid.deep_view().len() == orig.len() + count,
                forall|l: int| 0 <= l < orig.len() ==> avoid.deep_view()[l] == orig[l],
                forall|l: int|
                    0 <= l < count ==> avoid.deep_view()[orig.len() + l] == fresh.deep_view()[l],
                jwks_wf(fresh.deep_view()),
                forall|a: int, b: int|
                    0 <= a < count && 0 <= b < orig.len() ==> (#[trigger] fresh.deep_view()[a]).kid
                        != (#[trigger] orig[b]).kid,
            decreases 3 - count,
        {
            let k: Jwk = match fresh_jwk(&avoid) {
                Ok(k) => k,
                Err(e) => {
                    return Err(e);
                },
            };
            let k2: Jwk = k.clone();
            let ghost old_fresh: Seq<JwkView> = fresh.deep_view();
            let ghost old_avoid: Seq<JwkView> = avoid.deep_view();
            fresh.push(k);
            avoid.push(k2);
            proof {
                assert(fresh.deep_view().len() == old_fresh.len() + 1);
                assert(fresh.deep_view()[old_fresh.len() as int] == k@);
                assert(forall|l: int|
                    0 <= l < old_fresh.len() ==> fresh.deep_view()[l] == old_fresh[l]);
                assert(avoid.deep_view().len() == old_avoid.len() + 1);
                assert(avoid.deep_view()[old_avoid.len() as int] == k@);
                assert(forall|l: int|
                    0 <= l < old_avoid.len() ==> avoid.deep_view()[l] == old_avoid[l]);
                assert forall|l: int| 0 <= l < orig.len() implies avoid.deep_view()[l]
                    == orig[l] by {
                    assert(avoid.deep_view()[l] == old_avoid[l]);
                }
                assert forall|l: int| 0 <= l < count + 1 implies avoid.deep_view()[orig.len() + l]
                    == fresh.deep_view()[l] by {
                    if l < count {
                        assert(avoid.deep_view()[orig.len() + l] == old_avoid[orig.len() + l]);
                        assert(fresh.deep_view()[l] == old_fresh[l]);
                    } else {
                        assert(orig.len() + l == old_avoid.len());
                        assert(avoid.deep_view()[orig.len() + l] == k@);
                        assert(fresh.deep_view()[l] == k@);
                    }
                }
                assert forall|a: int, b: int| 0 <= a < b < fresh.deep_view().len() implies
                    fresh.deep_view()[a].kid != fresh.deep_view()[b].kid by {
                    if b == old_fresh.len() {
                        assert(old_avoid[orig.len() + a] == old_fresh[a]);
                        assert(old_avoid[orig.len() + a].kid != k@.kid);
                        assert(fresh.deep_view()[a] == old_fresh[a]);
                        assert(fresh.deep_view()[b] == k@);
                    } else {
                        assert(fresh.deep_view()[a] == old_fresh[a]);
                        assert(fresh.deep_view()[b] == old_fresh[b]);
                        assert(old_fresh[a].kid != old_fresh[b].kid);
                    }
                }
                assert forall|a: int, b: int|
                    0 <= a < fresh.deep_view().len() && 0 <= b < orig.len() implies (
                fresh.deep_view()[a]).kid != (orig[b]).kid by {
                    if a == old_fresh.len() {
                        assert(old_avoid[b] == orig[b]);
                        assert(old_avoid[b].kid != k@.kid);
                        assert(fresh.deep_view()[a] == k@);
                    } else {
                        assert(fresh.deep_view()[a] == old_fresh[a]);
                        assert(old_fresh[a].kid != orig[b].kid);
                    }
                }
                assert forall|a: int| 0 <= a < fresh.deep_view().len() implies (
                #[trigger] fresh.deep_view()[a]).wf() by {
                    if a < old_fresh.len() {
                        assert(fresh.deep_view()[a] == old_fresh[a]);
                        assert(old_fresh[a].wf());
                    } else {
                        assert(fresh.deep_view()[a] == k@);
                    }
                }
            }
            count = count + 1;
        }
        Ok(Jwks { keys: fresh })
    }
}

/// The public JWK entries of one key: everything but the private PEM.
pub open spec fn jwk_public_entries(k: JwkView) -> Seq<(Seq<char>, JsonVal)> {
    seq![
        (("kty")@, JsonVal::Str(k.kty)),
        (("n")@, JsonVal::Str(k.n)),
        (("e")@, JsonVal::Str(k.e)),
        (("alg")@, JsonVal::Str(k.alg)),
        (("kid")@, JsonVal::Str(k.kid)),
        (("use")@, JsonVal::Str(k.key_use)),
        (("x5c")@, JsonVal::StrList(k.x5c)),
    ]
}

impl Jwk {
    /// The key's public JWK entries; the private PEM is not among them.
    pub fn public_entries(&self) -> (r: Vec<(String, JsonValue)>)
        ensures
            entries_view(r@) == jwk_public_entries(self@),
    {
        let mut out: Vec<(String, JsonValue)> = Vec::new();
        out.push((("kty").to_owned(), JsonValue::Str(self.kty.clone())));
        out.push((("n").to_owned(), JsonValue::Str(self.n.clone())));
        out.push((("e").to_owned(), JsonValue::Str(self.e.clone())));
        out.push((("alg").to_owned(), JsonValue::Str(self.alg.clone())));
        out.push((("kid").to_owned(), JsonValue::Str(self.kid.clone())));
        out.push((("use").to_owned(), JsonValue::Str(self.key_use.clone())));
        out.push((("x5c").to_owned(), JsonValue::StrList(clone_string_vec(&self.x5c))));
        proof {
            assert(entries_view(out@) =~~= jwk_public_entries(self@));
        }
        out
    }
}

/// The comma-separated public JWK objects of the keys from position `i` on.
pub open spec fn jwks_items(keys: Seq<JwkView>, i: int) -> Seq<char>
    decreases keys.len() - i,
{
    if i < 0 || i >= keys.len() {
        Seq::<char>::empty()
    } else if i == 0 {
        obj_chars(jwk_public_entries(keys[0])) + jwks_items(keys, 1)
    } else {
        seq![','] + obj_chars(jwk_public_entries(keys[i])) + jwks_items(keys, i + 1)
    }
}

/// The published key set document: the public fields of every key under
/// `keys`, in set order.
pub open spec fn jwks_json_spec(keys: Seq<JwkView>) -> Seq<char> {
    ("{\"keys\":[")@ + jwks_items(keys, 0) + ("]}")@
}

impl Jwks {
    /// The key set as its published JSON document: only public JWK fields,
    /// never private key material.
    pub fn to_json(&self) -> (r: String)
        ensures
            r@ == jwks_json_spec(self@),
    {
        let mut out: Vec<char> = Vec::new();
        push_str_chars(&mut out, "{\"keys\":[");
        let mut i: usize = 0;
        while i < self.keys.len()
            invariant
                i <= self.keys.len(),
                out@ + jwks_items(self@, i as int) == ("{\"keys\":[")@ + jwks_items(self@, 0),
            decreases self.keys.len() - i,
        {
            if i > 0 {
                out.push(',');
            }
            let entries: Vec<(String, JsonValue)> = self.keys[i].public_entries();
            let obj: String = serialize_object(&entries);
            push_str_chars(&mut out, obj.as_str());
            proof {
                assert(self.keys[i as int]@ == self@[i as int]);
                assert(out@ + jwks_items(self@, i + 1 as int) =~= ("{\"keys\":[")@ + jwks_items(
                    self@,
                    0,
                ));
            }
            i = i + 1;
        }
        push_str_chars(&mut out, "]}");
        proof {
            assert(out@ =~= jwks_json_spec(self@));
        }
        chars_to_string(&out)
    }
}

/// Why verification refused a token, at specification level.
pub enum ParseFailure {
    Malformed,
    MissingKid,
    UnknownKid(Seq<char>),
    BadAlg(Seq<char>),
    BadSignature,
    BadAudience,
    Expired,
}

/// The specification-level failure an error denotes, for the errors the
/// verification path can produce.
pub open spec fn parse_err_of(e: Error) -> Option<ParseFailure> {
    match e {
        Error::MalformedToken => Some(ParseFailure::Malformed),
        Error::JwtMissingKid => Some(ParseFailure::MissingKid),
        Error::UnknownKid(s) => Some(ParseFailure::UnknownKid(s@)),
        Error::UnsupportedAlgorithm(a) => Some(ParseFailure::BadAlg(a@)),
        Error::InvalidSignature => Some(ParseFailure::BadSignature),
        Error::InvalidAudience => Some(ParseFailure::BadAudience),
        Error::Expired => Some(ParseFailure::Expired),
        _ => None,
    }
}

/// Whether the payload's `aud` claim (under last-entry-wins reading) is one
/// of the expected audiences; a missing or non-string `aud` matches none.
pub open spec fn aud_claim_ok(pes: Seq<(Seq<char>, JsonVal)>, auds: Seq<Seq<char>>) -> bool {
    match lookup_last(pes, ("aud")@) {
        Some(JsonVal::Str(a)) => auds.contains(a),
        _ => false,
    }
}

/// The outcome of the time-based checks at instant `now`: `exp` must be an
/// integer no earlier than `now`; `nbf`, when an integer, no later than
/// `now`; an absent or null `nbf` passes; any other shape is malformed.
pub open spec fn time_claims_outcome(pes: Seq<(Seq<char>, JsonVal)>, now: int) -> Result<
    (),
    ParseFailure,
> {
    match lookup_last(pes, ("exp")@) {
        Some(JsonVal::Int(x)) => if x < now {
            Err(ParseFailure::Expired)
        } else {
            match lookup_last(pes, ("nbf")@) {
                Some(JsonVal::Int(b)) => if b > now {
                    Err(ParseFailure::Expired)
                } else {
                    Ok(())
                },
                Some(JsonVal::Null) => Ok(()),
                None => Ok(()),
                Some(_) => Err(ParseFailure::Malformed),
            }
        },
        _ => Err(ParseFailure::Malformed),
    }
}

/// What verifying `token` against `keys` with expected audiences `auds` at
/// instant `now` returns: the payload entries, or the exact failure. The
/// checks run in order: framing, header decoding, `kid` presence, key
/// lookup, algorithm, signature, payload decoding, audience, time.
pub open spec fn parse_outcome(
    keys: Seq<JwkView>,
    token: Seq<char>,
    auds: Seq<Seq<char>>,
    now: int,
) -> Result<Seq<(Seq<char>, JsonVal)>, ParseFailure> {
    match dot_split3(token) {
        None => Err(ParseFailure::Malformed),
        Some((h64, p64, sig)) => match b64u_dec(h64) {
            None => Err(ParseFailure::Malformed),
            Some(htext) => match sp_json(htext) {
                None => Err(ParseFailure::Malformed),
                Some(hes) => match lookup_last(hes, ("kid")@) {
                    Some(JsonVal::Str(kid)) => match find_key(keys, kid) {
                        None => Err(ParseFailure::UnknownKid(kid)),
                        Some(k) => if k.alg != ("RS256")@ {
                            Err(ParseFailure::BadAlg(k.alg))
                        } else if !rs256_valid(k.n, k.e, h64 + seq!['.'] + p64, sig) {
                            Err(ParseFailure::BadSignature)
                        } else {
                            match b64u_dec(p64) {
                                None => Err(ParseFailure::Malformed),
                                Some(ptext) => match sp_json(ptext) {
                                    None => Err(ParseFailure::Malformed),
                                    Some(pes) => if auds.len() > 0 && !aud_claim_ok(pes, auds) {
                                        Err(ParseFailure::BadAudience)
                                    } else {
                                        match time_claims_outcome(pes, now) {
                                            Ok(u) => Ok(pes),
                                            Err(f) => Err(f),
                                        }
                                    },
                                },
                            }
                        },
                    },
                    None => Err(ParseFailure::MissingKid),
                    Some(_) => Err(ParseFailure::Malformed),
                },
            },
        },
    }
}

/// Whether some string of the list reads `s`.
fn contains_string(v: &Vec<String>, s: &str) -> (r: bool)
    ensures
        r == v.deep_view().contains(s@),
{
    let mut i: usize = 0;
    while i < v.len()
        invariant
            i <= v.len(),
            forall|k: int| 0 <= k < i ==> v.deep_view()[k] != s@,
        decreases v.len() - i,
    {
        if str_eq(v[i].as_str(), s) {
            proof {
                assert(v.deep_view()[i as int] == s@);
            }
            return true;
        }
        i = i + 1;
    }
    proof {
        assert(!v.deep_view().contains(s@)) by {
            if v.deep_view().contains(s@) {
                let k = choose|k: int| 0 <= k < v.deep_view().len() && v.deep_view()[k] == s@;
                assert(false);
            }
        }
    }
    false
}

impl Jwks {
    /// Verifies a compact token against this key set at instant `now`:
    /// exactly the outcome [`parse_outcome`] describes, with each failure
    /// reported as its own error variant.
    ///
    /// Payloads are read in the JSON shape this authority emits. That is a
    /// deliberate choice: a signed token whose payload falls outside it
    /// (nested objects, fractional numbers, whitespace between tokens) is
    /// rejected as malformed, which for an authority that verifies its own
    /// tokens loses nothing and keeps the verifier exact.
    pub fn parse_at(&self, token: &str, audiences: &Vec<String>, now: i64) -> (r: Result<
        Vec<(String, JsonValue)>,
        Error,
    >)
        ensures
            match r {
                Ok(es) => parse_outcome(self@, token@, audiences.deep_view(), now as int) == Ok::<
                    _,
                    ParseFailure,
                >(entries_view(es@)),
                Err(e) => parse_err_of(e) matches Some(f) && parse_outcome(
                    self@,
                    token@,
                    audiences.deep_view(),
                    now as int,
                ) == Err::<Seq<(Seq<char>, JsonVal)>, _>(f),
            },
    {
        let (h64, p64, sig, si) = match split_token(token) {
            Ok(t) => t,
            Err(e) => {
                return Err(e);
            },
        };
        let htext: String = match b64u_decode_str(h64.as_str()) {
            Ok(t) => t,
            Err(e) => {
                return Err(e);
            },
        };
        let hes: Vec<(String, JsonValue)> = match parse_object(htext.as_str()) {
            Ok(es) => es,
            Err(e) => {
                return Err(e);
            },
        };
        let kid: String = match entries_get(&hes, "kid") {
            Some(v) => match v {
                JsonValue::Str(s) => s,
                _ => {
                    return Err(Error::MalformedToken);
                },
            },
            None => {
                return Err(Error::JwtMissingKid);
            },
        };
        let k: Jwk = match self.find(kid.clone()) {
            Some(k) => k,
            None => {
                return Err(Error::UnknownKid(kid));
            },
        };
        if !str_eq(k.alg.as_str(), "RS256") {
            return Err(Error::UnsupportedAlgorithm(k.alg));
        }
        if !rs256_verify(k.n.as_str(), k.e.as_str(), si.as_str(), sig.as_str()) {
            return Err(Error::InvalidSignature);
        }
        let ptext: String = match b64u_decode_str(p64.as_str()) {
            Ok(t) => t,
            Err(e) => {
                return Err(e);
            },
        };
        let pes: Vec<(String, JsonValue)> = match parse_object(ptext.as_str()) {
            Ok(es) => es,
            Err(e) => {
                return Err(e);
            },
        };
        if audiences.len() > 0 {
            let aud_ok: bool = match entries_get(&pes, "aud") {
                Some(v) => match v {
                    JsonValue::Str(a) => contains_string(audiences, a.as_str()),
                    _ => false,
                },
                None => false,
            };
            if !aud_ok {
                return Err(Error::InvalidAudience);
            }
        }
        match entries_get(&pes, "exp") {
            Some(v) => match v {
                JsonValue::Int(x) => {
                    if x < now {
                        return Err(Error::Expired);
                    }
                },
                _ => {
                    return Err(Error::MalformedToken);
                },
            },
            None => {
                return Err(Error::MalformedToken);
            },
        }
        match entries_get(&pes, "nbf") {
            Some(v) => match v {
                JsonValue::Int(b) => {
                    if b > now {
                        return Err(Error::Expired);
                    }
                },
                JsonValue::Null => {},
                _ => {
                    return Err(Error::MalformedToken);
                },
            },
            None => {},
        }
        Ok(pes)
    }

    /// Verifies a compact token at the current instant. Each call reads the
    /// clock once; the outcome is exactly [`parse_outcome`] at that instant.
    pub fn parse(&self, token: &str, audiences: &Vec<String>) -> (r: Result<
        Vec<(String, JsonValue)>,
        Error,
    >)
        ensures
            match r {
                Ok(es) => exists|now: int|
                    parse_outcome(self@, token@, audiences.deep_view(), now) == Ok::<
                        _,
                        ParseFailure,
                    >(entries_view(es@)),
                Err(e) => parse_err_of(e) matches Some(f) && (exists|now: int|
                    parse_outcome(self@, token@, audiences.deep_view(), now) == Err::<
                        Seq<(Seq<char>, JsonVal)>,
                        _,
                    >(f)),
            },
    {
        let now: i64 = now_unix();
        let r = self.parse_at(token, audiences, now);
        proof {
            match r {
                Ok(ref es) => {
                    assert(parse_outcome(self@, token@, audiences.deep_view(), now as int) == Ok::<
                        _,
                        ParseFailure,
                    >(entries_view(es@)));
                },
                Err(ref e) => {},
            }
        }
        r
    }
}

/// Looking a name up ignores a suffix of entries that do not carry it.
pub proof fn lemma_lookup_past_suffix(
    base: Seq<(Seq<char>, JsonVal)>,
    ext: Seq<(Seq<char>, JsonVal)>,
    k: Seq<char>,
)
    requires
        forall|j: int| 0 <= j < ext.len() ==> (#[trigger] ext[j]).0 != k,
    ensures
        lookup_last(base + ext, k) == lookup_last(base, k),
    decreases ext.len(),
{
    if ext.len() == 0 {
        assert(base + ext =~= base);
    } else {
        assert((base + ext).last() == ext.last());
        assert((base + ext).drop_last() =~= base + ext.drop_last());
        assert(forall|j: int|
            0 <= j < ext.drop_last().len() ==> (#[trigger] ext.drop_last()[j]) == ext[j]);
        lemma_lookup_past_suffix(base, ext.drop_last(), k);
    }
}

/// No key carrying the id means no key is found.
pub proof fn lemma_find_key_none(keys: Seq<JwkView>, kid: Seq<char>)
    requires
        forall|i: int| 0 <= i < keys.len() ==> (#[trigger] keys[i]).kid != kid,
    ensures
        find_key(keys, kid) is None,
    decreases keys.len(),
{
    if keys.len() > 0 {
        assert(forall|i: int|
            0 <= i < keys.skip(1).len() ==> (#[trigger] keys.skip(1)[i]) == keys[i + 1]);
        lemma_find_key_none(keys.skip(1), kid);
    }
}

/// The fixed access-token claims read back under last-entry-wins lookup,
/// provided no custom claim reuses the fixed names `aud`, `exp` or `nbf`.
pub proof fn lemma_claims_lookups(c: crate::claims::ClaimsView)
    requires
        forall|j: int|
            0 <= j < c.custom_claims.len() ==> (#[trigger] c.custom_claims[j]).0 != ("aud")@
                && c.custom_claims[j].0 != ("exp")@ && c.custom_claims[j].0 != ("nbf")@,
    ensures
        lookup_last(c.entries(), ("aud")@) == Some(JsonVal::Str(c.aud)),
        lookup_last(c.entries(), ("exp")@) == Some(crate::claims::opt_int_val(c.exp)),
        lookup_last(c.entries(), ("nbf")@) == Some(crate::claims::opt_int_val(c.nbf)),
{
    reveal_strlit("iss");
    reveal_strlit("sub");
    reveal_strlit("aud");
    reveal_strlit("exp");
    reveal_strlit("nbf");
    reveal_strlit("iat");
    reveal_strlit("jti");
    reveal_strlit("scope");
    reveal_strlit("gty");
    reveal_strlit("permissions");
    let es = c.entries();
    let fixed = seq![
        (("iss")@, JsonVal::Str(c.iss)),
        (("sub")@, JsonVal::Str(c.sub)),
        (("aud")@, JsonVal::Str(c.aud)),
        (("exp")@, crate::claims::opt_int_val(c.exp)),
        (("nbf")@, crate::claims::opt_int_val(c.nbf)),
        (("iat")@, crate::claims::opt_int_val(c.iat)),
        (("jti")@, JsonVal::Str(c.jti)),
        (("scope")@, JsonVal::Str(c.scope)),
        (("gty")@, JsonVal::Str(c.gty.spec_str())),
        (("permissions")@, JsonVal::StrList(c.permissions)),
    ];
    assert(("aud")@[0] == 'a' && ("exp")@[0] == 'e' && ("nbf")@[0] == 'n' && ("iat")@[0] == 'i'
        && ("jti")@[0] == 'j' && ("gty")@[0] == 'g' && ("iss")@[0] == 'i' && ("sub")@[0] == 's');
    assert(("iat")@[1] == 'a' && ("iss")@[1] == 's' && ("aud")@[1] == 'u' && ("nbf")@[1] == 'b');
    assert(("aud")@.len() == 3 && ("exp")@.len() == 3 && ("nbf")@.len() == 3 && ("iat")@.len() == 3
        && ("jti")@.len() == 3 && ("gty")@.len() == 3 && ("scope")@.len() == 5 && (
    "permissions")@.len() == 11 && ("iss")@.len() == 3 && ("sub")@.len() == 3);
    assert(es =~= fixed + c.custom_claims);
    lemma_lookup_past_suffix(fixed, c.custom_claims, ("aud")@);
    lemma_lookup_past_suffix(fixed, c.custom_claims, ("exp")@);
    lemma_lookup_past_suffix(fixed, c.custom_claims, ("nbf")@);
    assert(fixed =~= fixed.take(3) + fixed.skip(3));
    assert(forall|j: int| 0 <= j < fixed.skip(3).len() ==> (#[trigger] fixed.skip(3)[j]).0 != (
    "aud")@);
    lemma_lookup_past_suffix(fixed.take(3), fixed.skip(3), ("aud")@);
    assert(fixed.take(3).last() == (("aud")@, JsonVal::Str(c.aud)));
    assert(fixed =~= fixed.take(4) + fixed.skip(4));
    assert(forall|j: int| 0 <= j < fixed.skip(4).len() ==> (#[trigger] fixed.skip(4)[j]).0 != (
    "exp")@);
    lemma_lookup_past_suffix(fixed.take(4), fixed.skip(4), ("exp")@);
    assert(fixed.take(4).last() == (("exp")@, crate::claims::opt_int_val(c.exp)));
    assert(fixed =~= fixed.take(5) + fixed.skip(5));
    assert(forall|j: int| 0 <= j < fixed.skip(5).len() ==> (#[trigger] fixed.skip(5)[j]).0 != (
    "nbf")@);
    lemma_lookup_past_suffix(fixed.take(5), fixed.skip(5), ("nbf")@);
    assert(fixed.take(5).last() == (("nbf")@, crate::claims::opt_int_val(c.nbf)));
}

/// A later custom claim under the same name wins: the decoded value of the
/// name is the value of its last custom claim.
pub proof fn lemma_custom_claim_last_wins(
    c: crate::claims::ClaimsView,
    name: Seq<char>,
    j: int,
)
    requires
        0 <= j < c.custom_claims.len(),
        c.custom_claims[j].0 == name,
        forall|l: int| j < l < c.custom_claims.len() ==> (#[trigger] c.custom_claims[l]).0 != name,
    ensures
        lookup_last(c.entries(), name) == Some(c.custom_claims[j].1),
{
    let es = c.entries();
    let upto = es.len() - (c.custom_claims.len() - j - 1);
    assert(es =~= es.take(upto as int) + es.skip(upto as int));
    assert(forall|l: int|
        0 <= l < es.skip(upto as int).len() ==> (#[trigger] es.skip(upto as int)[l]).0 != name);
    lemma_lookup_past_suffix(es.take(upto as int), es.skip(upto as int), name);
    assert(es.take(upto as int).last() == c.custom_claims[j]);
}

/// Header entries always parse back to the header that was written.
proof fn lemma_header_roundtrip(kid: Seq<char>)
    ensures
        sp_json(obj_chars(header_entries_spec(kid))) == Some(header_entries_spec(kid)),
        lookup_last(header_entries_spec(kid), ("kid")@) == Some(JsonVal::Str(kid)),
{
    assert(crate::json::entries_wf(header_entries_spec(kid)));
    crate::json::lemma_sp_json_of_obj(header_entries_spec(kid));
}

/// A token framed and signed by a key whose id no key of the set carries is
/// rejected as carrying an unknown kid — how rotation and revocation
/// invalidate outstanding tokens.
pub proof fn lemma_foreign_key_rejected(
    keys: Seq<JwkView>,
    pem: Seq<u8>,
    kid: Seq<char>,
    payload: Seq<char>,
    auds: Seq<Seq<char>>,
    now: int,
)
    requires
        forall|i: int| 0 <= i < keys.len() ==> (#[trigger] keys[i]).kid != kid,
        encode_facts(pem, kid, payload),
    ensures
        parse_outcome(keys, jwt_spec(pem, kid, payload), auds, now) == Err::<
            Seq<(Seq<char>, JsonVal)>,
            _,
        >(ParseFailure::UnknownKid(kid)),
{
    let h64 = b64u_of(obj_chars(header_entries_spec(kid)));
    let p64 = b64u_of(payload);
    let si = signing_input_spec(kid, payload);
    let sig = rs256_sig_of(pem, si);
    let token = jwt_spec(pem, kid, payload);
    assert(token =~= h64 + seq!['.'] + p64 + seq!['.'] + sig);
    crate::jwt::lemma_dot_split3_of(h64, p64, sig);
    lemma_header_roundtrip(kid);
    lemma_find_key_none(keys, kid);
}

/// Round trip: a token issued over an executable claim set by a key of the
/// set verifies against that set and yields exactly the claim entries,
/// whenever the expected audiences admit the claim's audience, the token is
/// not yet expired, and no custom claim shadows `aud`, `exp` or `nbf`.
pub proof fn lemma_access_token_round_trip(
    keys: Seq<JwkView>,
    kidx: int,
    c: crate::claims::ClaimsView,
    auds: Seq<Seq<char>>,
    now: int,
)
    requires
        jwks_wf(keys),
        0 <= kidx < keys.len(),
        encode_facts(keys[kidx].pem, keys[kidx].kid, obj_chars(c.entries())),
        crate::json::entries_wf(c.entries()),
        forall|j: int|
            0 <= j < c.custom_claims.len() ==> (#[trigger] c.custom_claims[j]).0 != ("aud")@
                && c.custom_claims[j].0 != ("exp")@ && c.custom_claims[j].0 != ("nbf")@,
        auds.len() == 0 || auds.contains(c.aud),
        c.exp matches Some(x) && now <= x,
        c.nbf matches Some(b) && b <= now,
    ensures
        parse_outcome(
            keys,
            jwt_spec(keys[kidx].pem, keys[kidx].kid, obj_chars(c.entries())),
            auds,
            now,
        ) == Ok::<_, ParseFailure>(c.entries()),
{
    let pem = keys[kidx].pem;
    let kid = keys[kidx].kid;
    let payload = obj_chars(c.entries());
    let h64 = b64u_of(obj_chars(header_entries_spec(kid)));
    let p64 = b64u_of(payload);
    let si = signing_input_spec(kid, payload);
    let sig = rs256_sig_of(pem, si);
    let token = jwt_spec(pem, kid, payload);
    assert(token =~= h64 + seq!['.'] + p64 + seq!['.'] + sig);
    crate::jwt::lemma_dot_split3_of(h64, p64, sig);
    lemma_header_roundtrip(kid);
    lemma_find_key_at(keys, kidx);
    assert(keys[kidx].wf());
    assert(keys[kidx].alg == ("RS256")@);
    assert(rs256_valid(keys[kidx].n, keys[kidx].e, h64 + seq!['.'] + p64, sig)) by {
        assert(h64 + seq!['.'] + p64 =~= si);
        assert(keys[kidx].n == modulus_b64_of(pem));
        assert(keys[kidx].e == exponent_b64_of(pem));
    }
    crate::json::lemma_sp_json_of_obj(c.entries());
    lemma_claims_lookups(c);
    if auds.len() > 0 {
        assert(aud_claim_ok(c.entries(), auds));
    }
    assert(time_claims_outcome(c.entries(), now) == Ok::<(), ParseFailure>(()));
}

/// A token issued for one audience fails verification against an expected
/// audience list that does not contain it, with an audience error.
pub proof fn lemma_audience_mismatch_rejected(
    keys: Seq<JwkView>,
    kidx: int,
    c: crate::claims::ClaimsView,
    auds: Seq<Seq<char>>,
    now: int,
)
    requires
        jwks_wf(keys),
        0 <= kidx < keys.len(),
        encode_facts(keys[kidx].pem, keys[kidx].kid, obj_chars(c.entries())),
        crate::json::entries_wf(c.entries()),
        forall|j: int|
            0 <= j < c.custom_claims.len() ==> (#[trigger] c.custom_claims[j]).0 != ("aud")@
                && c.custom_claims[j].0 != ("exp")@ && c.custom_claims[j].0 != ("nbf")@,
        auds.len() > 0,
        !auds.contains(c.aud),
    ensures
        parse_outcome(
            keys,
            jwt_spec(keys[kidx].pem, keys[kidx].kid, obj_chars(c.entries())),
            auds,
            now,
        ) == Err::<Seq<(Seq<char>, JsonVal)>, _>(ParseFailure::BadAudience),
{
    let pem = keys[kidx].pem;
    let kid = keys[kidx].kid;
    let payload = obj_chars(c.entries());
    let h64 = b64u_of(obj_chars(header_entries_spec(kid)));
    let p64 = b64u_of(payload);
    let si = signing_input_spec(kid, payload);
    let sig = rs256_sig_of(pem, si);
    let token = jwt_spec(pem, kid, payload);
    assert(token =~= h64 + seq!['.'] + p64 + seq!['.'] + sig);
    crate::jwt::lemma_dot_split3_of(h64, p64, sig);
    lemma_header_roundtrip(kid);
    lemma_find_key_at(keys, kidx);
    assert(rs256_valid(keys[kidx].n, keys[kidx].e, h64 + seq!['.'] + p64, sig)) by {
        assert(h64 + seq!['.'] + p64 =~= si);
    }
    crate::json::lemma_sp_json_of_obj(c.entries());
    lemma_claims_lookups(c);
    assert(!aud_claim_ok(c.entries(), auds));
}

/// Rotation invalidates the oldest key: a token signed before rotation by
/// the key that rotation dropped is rejected by the rotated set as carrying
/// an unknown kid.
pub proof fn lemma_rotation_invalidates_oldest(
    old_keys: Seq<JwkView>,
    new_keys: Seq<JwkView>,
    payload: Seq<char>,
    auds: Seq<Seq<char>>,
    now: int,
)
    requires
        jwks_wf(old_keys),
        old_keys.len() == 3,
        new_keys.len() == 3,
        forall|i: int| 0 <= i < old_keys.len() ==> (#[trigger] old_keys[i]).kid != new_keys[0].kid,
        forall|i: int| 1 <= i < new_keys.len() ==> (#[trigger] new_keys[i]) == old_keys[i - 1],
        encode_facts(old_keys[2].pem, old_keys[2].kid, payload),
    ensures
        parse_outcome(
            new_keys,
            jwt_spec(old_keys[2].pem, old_keys[2].kid, payload),
            auds,
            now,
        ) == Err::<Seq<(Seq<char>, JsonVal)>, _>(ParseFailure::UnknownKid(old_keys[2].kid)),
{
    assert forall|i: int| 0 <= i < new_keys.len() implies (#[trigger] new_keys[i]).kid
        != old_keys[2].kid by {
        if i == 0 {
            assert(old_keys[2].kid != new_keys[0].kid);
        } else {
            assert(new_keys[i] == old_keys[i - 1]);
            assert(old_keys[i - 1].kid != old_keys[2].kid);
        }
    }
    lemma_foreign_key_rejected(
        new_keys,
        old_keys[2].pem,
        old_keys[2].kid,
        payload,
        auds,
        now,
    );
}

/// Revocation invalidates every prior key: a token signed by any key of the
/// replaced set is rejected by the new set as carrying an unknown kid.
pub proof fn lemma_revocation_invalidates_all(
    old_keys: Seq<JwkView>,
    new_keys: Seq<JwkView>,
    l: int,
    payload: Seq<char>,
    auds: Seq<Seq<char>>,
    now: int,
)
    requires
        0 <= l < old_keys.len(),
        forall|a: int, b: int|
            0 <= a < new_keys.len() && 0 <= b < old_keys.len() ==> (#[trigger] new_keys[a]).kid != (
            #[trigger] old_keys[b]).kid,
        encode_facts(old_keys[l].pem, old_keys[l].kid, payload),
    ensures
        parse_outcome(
            new_keys,
            jwt_spec(old_keys[l].pem, old_keys[l].kid, payload),
            auds,
            now,
        ) == Err::<Seq<(Seq<char>, JsonVal)>, _>(ParseFailure::UnknownKid(old_keys[l].kid)),
{
    assert(forall|i: int|
        0 <= i < new_keys.len() ==> (#[trigger] new_keys[i]).kid != old_keys[l].kid);
    lemma_foreign_key_rejected(
        new_keys,
        old_keys[l].pem,
        old_keys[l].kid,
        payload,
        auds,
        now,
    );
}

} // verus!
