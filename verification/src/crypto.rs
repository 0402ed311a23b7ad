//! Asymmetric-key primitives behind trusted wrappers.
//!
//! Keys are exchanged as hex text and signatures as hex-encoded DER, so every
//! wrapper here goes from plain values to plain values. The outcome of each
//! secp256k1 operation is deterministic in those plain values (RFC 6979
//! signing draws no randomness), which is what lets the results be named by
//! uninterpreted spec functions.

use core::str::FromStr;
use vstd::prelude::*;

verus! {

/// The canonical (uncompressed) point encoding of the public key that parses
/// from the hex text `s`, or `None` when `s` is not a valid public key.
pub uninterp spec fn pk_canon(s: Seq<char>) -> Option<Seq<u8>>;

/// The canonical (uncompressed) point encoding of the public key derived from
/// the secret key that parses from the hex text `s`, or `None` when `s` is
/// not a valid secret key.
pub uninterp spec fn sk_canon_pk(s: Seq<char>) -> Option<Seq<u8>>;

/// The DER encoding of the RFC 6979 (deterministic) ECDSA signature over the
/// 32-byte message `msg` by the secret key parsing from `sk`.
pub uninterp spec fn ecdsa_sig_der(sk: Seq<char>, msg: Seq<u8>) -> Seq<u8>;

/// Whether `sig` parses as a DER-encoded ECDSA signature.
pub uninterp spec fn sig_der_parses(sig: Seq<u8>) -> bool;

/// Whether the DER signature `sig` verifies over the 32-byte message `msg`
/// under the public key parsing from the hex text `pk`.
pub uninterp spec fn ecdsa_verify_ok(pk: Seq<char>, msg: Seq<u8>, sig: Seq<u8>) -> bool;

/// Relies on secp256k1's PublicKey::from_str and serialize_uncompressed:
/// parsing accepts exactly the hex texts of compressed or uncompressed
/// points, and the uncompressed serialization of the parsed point is a
/// 65-byte value determined by the text alone.
#[verifier::external_body]
pub(crate) fn parse_public_key(s: &str) -> (r: Option<Vec<u8>>)
    ensures
        r is Some <==> pk_canon(s@) is Some,
        r matches Some(v) ==> pk_canon(s@) == Some(v@),
{
    match secp256k1::PublicKey::from_str(s) {
        Ok(pk) => Some(pk.serialize_uncompressed().to_vec()),
        Err(_) => None,
    }
}

/// Relies on secp256k1's SecretKey::from_str, PublicKey::from_secret_key and
/// serialize_uncompressed: the public key of a secret key is determined by
/// the secret key alone, and two secret keys agree on it exactly when they
/// stand for the same scalar.
#[verifier::external_body]
pub(crate) fn derive_public_key(s: &str) -> (r: Option<Vec<u8>>)
    ensures
        r is Some <==> sk_canon_pk(s@) is Some,
        r matches Some(v) ==> sk_canon_pk(s@) == Some(v@),
{
    match secp256k1::SecretKey::from_str(s) {
        Ok(sk) => Some(secp256k1::PublicKey::from_secret_key(&sk).serialize_uncompressed().to_vec()),
        Err(_) => None,
    }
}

/// Relies on secp256k1's ecdsa::sign with Message::from_digest and
/// Signature::serialize_der: RFC 6979 signing is a function of the secret
/// key and the 32-byte message alone; the DER serialization is non-empty,
/// parses back with Signature::from_der, and verifies (ecdsa::verify) under
/// any public key text that parses to the point derived from the secret key.
#[verifier::external_body]
pub(crate) fn sign_digest(sk: &str, msg: &Vec<u8>) -> (r: Vec<u8>)
    requires
        sk_canon_pk(sk@) is Some,
        msg@.len() == 32,
    ensures
        r@ == ecdsa_sig_der(sk@, msg@),
        r@.len() > 0,
        sig_der_parses(r@),
        forall|pk: Seq<char>| #[trigger] pk_canon(pk) == sk_canon_pk(sk@) ==> ecdsa_verify_ok(
            pk,
            msg@,
            r@,
        ),
{
    let key = secp256k1::SecretKey::from_str(sk).unwrap();
    let digest: [u8; 32] = msg.as_slice().try_into().unwrap();
    let m = secp256k1::Message::from_digest(digest);
    secp256k1::ecdsa::sign(m, &key).serialize_der().to_vec()
}

/// Relies on secp256k1's Signature::from_der and ecdsa::verify with
/// PublicKey::from_str and Message::from_digest: whether a DER
/// signature parses, and whether it verifies, are determined by the
/// signature bytes, the message bytes and the public key text alone.
#[verifier::external_body]
pub(crate) fn verify_signature(pk: &str, msg: &Vec<u8>, sig_der: &Vec<u8>) -> (r: Option<bool>)
    requires
        pk_canon(pk@) is Some,
        msg@.len() == 32,
    ensures
        r is Some <==> sig_der_parses(sig_der@),
        r matches Some(b) ==> b == ecdsa_verify_ok(pk@, msg@, sig_der@),
{
    let key = secp256k1::PublicKey::from_str(pk).unwrap();
    let digest: [u8; 32] = msg.as_slice().try_into().unwrap();
    let m = secp256k1::Message::from_digest(digest);
    match secp256k1::ecdsa::Signature::from_der(sig_der) {
        Ok(sig) => Some(secp256k1::ecdsa::verify(&sig, m, &key).is_ok()),
        Err(_) => None,
    }
}

/// Relies on chrono's Utc::now and to_rfc3339. The clock decides the result,
/// so nothing is promised of it.
#[verifier::external_body]
pub(crate) fn current_time_rfc3339() -> String {
    chrono::Utc::now().to_rfc3339()
}

/// Byte-vector equality, the comparison the key-match check rests on.
pub(crate) fn bytes_eq(a: &Vec<u8>, b: &Vec<u8>) -> (r: bool)
    ensures
        r == (a@ == b@),
{
    crate::digest::slice_bytes_eq(a.as_slice(), b.as_slice())
}

} // verus!
