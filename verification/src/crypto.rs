//! Trusted adapters over the cryptographic primitives: content hashing
//! (SHA-256 and BLAKE3) and Ed25519 signing / signature verification.
//!
//! Each primitive's result is a pure function of its input bytes; the results
//! are given uninterpreted names that the rest of the library reasons with.

use vstd::prelude::*;
use sha2::Digest;
use ed25519_dalek::{Signer, Verifier};

verus! {

/// The SHA-256 digest of a byte sequence.
pub uninterp spec fn sha256_of(data: Seq<u8>) -> Seq<u8>;

/// The BLAKE3 digest of a byte sequence.
pub uninterp spec fn blake3_of(data: Seq<u8>) -> Seq<u8>;

/// Whether an Ed25519 signature verifies a message under a public key, all
/// given as raw bytes. Malformed key or signature bytes deterministically
/// fail to verify, so this is total over byte sequences.
pub uninterp spec fn ed25519_verifies(pk: Seq<u8>, msg: Seq<u8>, sig: Seq<u8>) -> bool;

/// The Ed25519 signature of a message under a 32-byte secret key.
pub uninterp spec fn ed25519_sign_of(sk: Seq<u8>, msg: Seq<u8>) -> Seq<u8>;

/// The Ed25519 public key derived from a 32-byte secret key.
pub uninterp spec fn ed25519_public_of(sk: Seq<u8>) -> Seq<u8>;

/// Relies on sha2's `Sha256::digest`: a 32-byte digest that is a function of
/// the input bytes alone.
#[verifier::external_body]
pub fn sha256(data: &[u8]) -> (r: Vec<u8>)
    ensures
        r@ == sha256_of(data@),
        r@.len() == 32,
{
    sha2::Sha256::digest(data).as_slice().to_vec()
}

/// Relies on blake3's `hash`: a 32-byte digest that is a function of the
/// input bytes alone.
#[verifier::external_body]
pub fn blake3_hash(data: &[u8]) -> (r: Vec<u8>)
    ensures
        r@ == blake3_of(data@),
        r@.len() == 32,
{
    blake3::hash(data).as_bytes().to_vec()
}

/// Relies on ed25519_dalek's `VerifyingKey::verify`: acceptance is a function
/// of the key, message and signature bytes alone; bytes that do not parse as
/// a key or signature never verify, and no input panics.
#[verifier::external_body]
pub fn ed25519_verify(pk: &[u8], msg: &[u8], sig: &[u8]) -> (r: bool)
    ensures
        r == ed25519_verifies(pk@, msg@, sig@),
{
    let key_bytes: [u8; 32] = match pk.try_into() {
        Ok(b) => b,
        Err(_) => return false,
    };
    let key = match ed25519_dalek::VerifyingKey::from_bytes(&key_bytes) {
        Ok(k) => k,
        Err(_) => return false,
    };
    let sig = match ed25519_dalek::Signature::from_slice(sig) {
        Ok(s) => s,
        Err(_) => return false,
    };
    key.verify(msg, &sig).is_ok()
}

/// Relies on ed25519_dalek's `SigningKey::sign` (RFC 8032): the 64-byte
/// signature is a deterministic function of the secret key and message, and
/// it verifies under the matching public key.
#[verifier::external_body]
pub fn ed25519_sign(sk: &[u8], msg: &[u8]) -> (r: Vec<u8>)
    requires
        sk@.len() == 32,
    ensures
        r@ == ed25519_sign_of(sk@, msg@),
        r@.len() == 64,
        ed25519_verifies(ed25519_public_of(sk@), msg@, r@),
{
    let key_bytes: [u8; 32] = sk.try_into().unwrap();
    let key = ed25519_dalek::SigningKey::from_bytes(&key_bytes);
    key.sign(msg).to_bytes().to_vec()
}

/// Relies on ed25519_dalek's `SigningKey::verifying_key`: the public key is a
/// function of the 32-byte secret key alone.
#[verifier::external_body]
pub fn ed25519_public_key(sk: &[u8]) -> (r: Vec<u8>)
    requires
        sk@.len() == 32,
    ensures
        r@ == ed25519_public_of(sk@),
        r@.len() == 32,
{
    let key_bytes: [u8; 32] = sk.try_into().unwrap();
    let key = ed25519_dalek::SigningKey::from_bytes(&key_bytes);
    key.verifying_key().to_bytes().to_vec()
}

} // verus!
