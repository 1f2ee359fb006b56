//! Key material, signatures, and the other outside calls the authority
//! needs: RSA key generation and self-signed certificates from `openssl`,
//! RS256 signing and verification from `jsonwebtoken`, random ids from
//! `uuid`, uniform choice from `rand`, and the clock from `chrono`.
//!
//! An RS256 (PKCS#1 v1.5) signature is a deterministic function of key and
//! message, so signing and verification outcomes are named as functions and
//! the calls are trusted to compute them. Key generation and id generation
//! are random: nothing is named of their results, only what holds of every
//! outcome.

use vstd::prelude::*;

use crate::error::Error;

verus! {

/// What the base64url-encoded modulus of the RSA key in a PKCS#8 PEM is: a
/// function of the key alone.
pub uninterp spec fn modulus_b64_of(pem: Seq<u8>) -> Seq<char>;

/// What the base64url-encoded public exponent of the RSA key in a PKCS#8
/// PEM is: a function of the key alone.
pub uninterp spec fn exponent_b64_of(pem: Seq<u8>) -> Seq<char>;

/// What RS256 signing of a message with the key in a PEM returns, as the
/// base64url signature text: deterministic for PKCS#1 v1.5.
pub uninterp spec fn rs256_sig_of(pem: Seq<u8>, msg: Seq<char>) -> Seq<char>;

/// Whether a base64url signature verifies for a message under the public
/// key given as base64url modulus and exponent; key parse failures and
/// signature decode failures count as not verifying.
pub uninterp spec fn rs256_valid(n: Seq<char>, e: Seq<char>, msg: Seq<char>, sig: Seq<char>) -> bool;

/// Freshly generated RSA key material: the private key as PKCS#8 PEM bytes
/// and the base64url JWK components of its public half.
pub struct RsaKeyMaterial {
    pub pem: Vec<u8>,
    pub n: String,
    pub e: String,
}

/// Relies on openssl's `Rsa::generate`, `PKey` PEM export and
/// `base64_url::encode`: the key is random, and the returned components are
/// the modulus and exponent of exactly the returned key.
#[verifier::external_body]
pub fn generate_private_key() -> (r: Result<RsaKeyMaterial, Error>)
    ensures
        match r {
            Ok(m) => m.n@ == modulus_b64_of(m.pem@) && m.e@ == exponent_b64_of(m.pem@),
            Err(e) => e == Error::Crypto,
        },
{
    let rsa = match openssl::rsa::Rsa::generate(2048) { Ok(k) => k, Err(_) => return Err(Error::Crypto) };
    let n = base64_url::encode(&rsa.n().to_vec());
    let e = base64_url::encode(&rsa.e().to_vec());
    let pkey = match openssl::pkey::PKey::from_rsa(rsa) { Ok(k) => k, Err(_) => return Err(Error::Crypto) };
    let pem = match pkey.private_key_to_pem_pkcs8() { Ok(p) => p, Err(_) => return Err(Error::Crypto) };
    Ok(RsaKeyMaterial { pem, n, e })
}

/// Relies on jsonwebtoken's `EncodingKey::from_rsa_pem` and `crypto::sign`:
/// the RS256 signature is a function of key and message, and verifies under
/// the same key's public components; its base64url text contains no dot.
#[verifier::external_body]
pub fn rs256_sign(pem: &Vec<u8>, msg: &str) -> (r: Result<String, Error>)
    ensures
        match r {
            Ok(sig) => sig@ == rs256_sig_of(pem@, msg@) && rs256_valid(
                modulus_b64_of(pem@),
                exponent_b64_of(pem@),
                msg@,
                sig@,
            ) && (forall|i: int| 0 <= i < sig@.len() ==> sig@[i] != '.'),
            Err(e) => e == Error::Signing,
        },
{
    let key = match jsonwebtoken::EncodingKey::from_rsa_pem(pem) {
        Ok(k) => k,
        Err(_) => return Err(Error::Signing),
    };
    match jsonwebtoken::crypto::sign(msg.as_bytes(), &key, jsonwebtoken::Algorithm::RS256) {
        Ok(sig) => Ok(sig),
        Err(_) => Err(Error::Signing),
    }
}

/// Relies on jsonwebtoken's `DecodingKey::from_rsa_components` and
/// `crypto::verify`: the outcome is a function of the public components,
/// message and signature; any error counts as failure to verify.
#[verifier::external_body]
pub fn rs256_verify(n: &str, e: &str, msg: &str, sig: &str) -> (r: bool)
    ensures
        r == rs256_valid(n@, e@, msg@, sig@),
{
    match jsonwebtoken::DecodingKey::from_rsa_components(n, e) {
        Ok(key) => matches!(
            jsonwebtoken::crypto::verify(sig, msg.as_bytes(), &key, jsonwebtoken::Algorithm::RS256),
            Ok(true)
        ),
        Err(_) => false,
    }
}

/// Relies on `uuid::Uuid::new_v4` and its `Display` form: a fresh random
/// id; its hyphenated text is 36 characters.
#[verifier::external_body]
pub fn random_token() -> (r: String)
    ensures
        r@.len() == 36,
{
    uuid::Uuid::new_v4().to_string()
}

/// Relies on `chrono::Utc::now`: the current Unix timestamp in seconds;
/// nothing is assumed of its value.
#[verifier::external_body]
pub fn now_unix() -> (r: i64) {
    chrono::Utc::now().timestamp()
}

/// Relies on rand's `gen_range`: a uniformly chosen index below `n`.
#[verifier::external_body]
pub fn random_below(n: usize) -> (r: usize)
    requires
        n > 0,
    ensures
        r < n,
{
    rand::Rng::gen_range(&mut rand::thread_rng(), 0..n)
}

#[verifier::external_type_specification]
#[verifier::external_body]
pub struct ExX509Builder(openssl::x509::X509Builder);

#[verifier::external_type_specification]
#[verifier::external_body]
pub struct ExX509Name(openssl::x509::X509Name);

/// Relies on openssl's X509 name builder: the authority's own fixed
/// certificate name.
#[verifier::external_body]
fn x509_authority_name() -> (r: Result<openssl::x509::X509Name, Error>)
    ensures
        r matches Err(e) ==> e == Error::Crypto,
{
    let mut nb = match openssl::x509::X509NameBuilder::new() { Ok(b) => b, Err(_) => return Err(Error::Crypto) };
    if nb.append_entry_by_text("C", "US").is_err() { return Err(Error::Crypto) }
    if nb.append_entry_by_text("O", "LocalAuth0 CA").is_err() { return Err(Error::Crypto) }
    if nb.append_entry_by_text("CN", "LocalAuth0 CA").is_err() { return Err(Error::Crypto) }
    Ok(nb.build())
}

/// Relies on openssl's X509 builder: starts a version-3 certificate whose
/// subject and issuer are the given name.
#[verifier::external_body]
fn x509_builder_named(name: &openssl::x509::X509Name) -> (r: Result<
    openssl::x509::X509Builder,
    Error,
>)
    ensures
        r matches Err(e) ==> e == Error::Crypto,
{
    let mut b = match openssl::x509::X509::builder() { Ok(b) => b, Err(_) => return Err(Error::Crypto) };
    if b.set_version(2).is_err() { return Err(Error::Crypto) }
    if b.set_subject_name(name).is_err() { return Err(Error::Crypto) }
    if b.set_issuer_name(name).is_err() { return Err(Error::Crypto) }
    Ok(b)
}

/// Relies on openssl: gives the certificate a random 159-bit serial.
#[verifier::external_body]
fn x509_set_serial(b: &mut openssl::x509::X509Builder) -> (r: Result<(), Error>)
    ensures
        r matches Err(e) ==> e == Error::Crypto,
{
    let mut serial = match openssl::bn::BigNum::new() { Ok(s) => s, Err(_) => return Err(Error::Crypto) };
    if serial.rand(159, openssl::bn::MsbOption::MAYBE_ZERO, false).is_err() { return Err(Error::Crypto) }
    let asn1 = match serial.to_asn1_integer() { Ok(a) => a, Err(_) => return Err(Error::Crypto) };
    if b.set_serial_number(&asn1).is_err() { return Err(Error::Crypto) }
    Ok(())
}

/// Relies on openssl: gives the certificate one year of validity from now.
#[verifier::external_body]
fn x509_set_validity(b: &mut openssl::x509::X509Builder) -> (r: Result<(), Error>)
    ensures
        r matches Err(e) ==> e == Error::Crypto,
{
    let nb = match openssl::asn1::Asn1Time::days_from_now(0) { Ok(t) => t, Err(_) => return Err(Error::Crypto) };
    let na = match openssl::asn1::Asn1Time::days_from_now(365) { Ok(t) => t, Err(_) => return Err(Error::Crypto) };
    if b.set_not_before(&nb).is_err() { return Err(Error::Crypto) }
    if b.set_not_after(&na).is_err() { return Err(Error::Crypto) }
    Ok(())
}

/// Relies on openssl: binds the public key of the key in `pem` to the
/// certificate.
#[verifier::external_body]
fn x509_set_pubkey(b: &mut openssl::x509::X509Builder, pem: &Vec<u8>) -> (r: Result<(), Error>)
    ensures
        r matches Err(e) ==> e == Error::Crypto,
{
    let pkey = match openssl::pkey::PKey::private_key_from_pem(pem) { Ok(k) => k, Err(_) => return Err(Error::Crypto) };
    if b.set_pubkey(&pkey).is_err() { return Err(Error::Crypto) }
    Ok(())
}

/// Relies on openssl: marks the certificate a critical CA with cert-sign,
/// CRL-sign and digital-signature usages.
#[verifier::external_body]
fn x509_set_usage_extensions(b: &mut openssl::x509::X509Builder) -> (r: Result<(), Error>)
    ensures
        r matches Err(e) ==> e == Error::Crypto,
{
    let bc = match openssl::x509::extension::BasicConstraints::new().critical().ca().build() { Ok(x) => x, Err(_) => return Err(Error::Crypto) };
    if b.append_extension(bc).is_err() { return Err(Error::Crypto) }
    let ku = match openssl::x509::extension::KeyUsage::new().critical().key_cert_sign().crl_sign().digital_signature().build() { Ok(x) => x, Err(_) => return Err(Error::Crypto) };
    if b.append_extension(ku).is_err() { return Err(Error::Crypto) }
    Ok(())
}

/// Relies on openssl: adds the certificate's subject key identifier.
#[verifier::external_body]
fn x509_set_subject_key_id(b: &mut openssl::x509::X509Builder) -> (r: Result<(), Error>)
    ensures
        r matches Err(e) ==> e == Error::Crypto,
{
    let ski = match openssl::x509::extension::SubjectKeyIdentifier::new().build(&b.x509v3_context(None, None)) { Ok(x) => x, Err(_) => return Err(Error::Crypto) };
    if b.append_extension(ski).is_err() { return Err(Error::Crypto) }
    Ok(())
}

/// Relies on openssl: signs the certificate with the key in `pem` using
/// SHA-256 and returns the DER encoding.
#[verifier::external_body]
fn x509_sign_der(b: openssl::x509::X509Builder, pem: &Vec<u8>) -> (r: Result<Vec<u8>, Error>)
    ensures
        r matches Err(e) ==> e == Error::Crypto,
{
    let mut b = b;
    let pkey = match openssl::pkey::PKey::private_key_from_pem(pem) { Ok(k) => k, Err(_) => return Err(Error::Crypto) };
    if b.sign(&pkey, openssl::hash::MessageDigest::sha256()).is_err() { return Err(Error::Crypto) }
    match b.build().to_der() { Ok(d) => Ok(d), Err(_) => Err(Error::Crypto) }
}

/// Builds a fresh self-signed certificate for the key in `pem` and returns
/// its DER encoding: the authority's own name, a random serial, one year of
/// validity, CA basic constraint and signing key usages.
pub fn generate_certificate(pem: &Vec<u8>) -> (r: Result<Vec<u8>, Error>)
    ensures
        r matches Err(e) ==> e == Error::Crypto,
{
    let name: openssl::x509::X509Name = match x509_authority_name() {
        Ok(n) => n,
        Err(e) => {
            return Err(e);
        },
    };
    let mut b = match x509_builder_named(&name) {
        Ok(b) => b,
        Err(e) => {
            return Err(e);
        },
    };
    match x509_set_serial(&mut b) {
        Ok(()) => (),
        Err(e) => {
            return Err(e);
        },
    }
    match x509_set_validity(&mut b) {
        Ok(()) => (),
        Err(e) => {
            return Err(e);
        },
    }
    match x509_set_pubkey(&mut b, pem) {
        Ok(()) => (),
        Err(e) => {
            return Err(e);
        },
    }
    match x509_set_usage_extensions(&mut b) {
        Ok(()) => (),
        Err(e) => {
            return Err(e);
        },
    }
    match x509_set_subject_key_id(&mut b) {
        Ok(()) => (),
        Err(e) => {
            return Err(e);
        },
    }
    x509_sign_der(b, pem)
}

} // verus!
