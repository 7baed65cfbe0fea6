//! Ed25519 receipt signatures: each signer's key pair is derived from the
//! SHA-256 of its identity's encoding, and a receipt is signed over the
//! encoding of its unsigned form.

use crate::digest::{sha256, sha256_of};
use ring::signature::{Ed25519KeyPair, KeyPair, UnparsedPublicKey, ED25519};
use vstd::prelude::*;

verus! {

/// The Ed25519 public key that `ring` derives from a 32-byte seed.
pub uninterp spec fn ed25519_public_key(seed: Seq<u8>) -> Seq<u8>;

/// The Ed25519 signature of `message` under the key pair of a 32-byte seed.
pub uninterp spec fn ed25519_signature(seed: Seq<u8>, message: Seq<u8>) -> Seq<u8>;

/// Whether `signature` verifies for `message` under an Ed25519 public key.
pub uninterp spec fn ed25519_verifies(public_key: Seq<u8>, message: Seq<u8>, signature: Seq<u8>) -> bool;

/// `ring::signature::Ed25519KeyPair::from_seed_unchecked`, read through
/// `KeyPair::public_key` (which returns the key pair's stored public key).
/// `from_seed_unchecked` accepts exactly 32-byte seeds; the contract names the
/// derived key and does not describe it.
#[verifier::external_body]
fn seeded_public_key(seed: &[u8]) -> (public_key: Option<Vec<u8>>)
    ensures
        public_key is Some <==> seed@.len() == 32,
        public_key matches Some(key) ==> key@ == ed25519_public_key(seed@),
{
    Ed25519KeyPair::from_seed_unchecked(seed).ok().map(|pair| pair.public_key().as_ref().to_vec())
}

/// `ring::signature::Ed25519KeyPair::sign` with the key pair that
/// `from_seed_unchecked` builds from `seed`, which accepts exactly 32-byte
/// seeds. The contract names the signature and does not describe it.
#[verifier::external_body]
fn seeded_signature(seed: &[u8], message: &[u8]) -> (signature: Option<Vec<u8>>)
    ensures
        signature is Some <==> seed@.len() == 32,
        signature matches Some(s) ==> s@ == ed25519_signature(seed@, message@),
{
    Ed25519KeyPair::from_seed_unchecked(seed).ok().map(|pair| pair.sign(message).as_ref().to_vec())
}

/// `ring::signature::UnparsedPublicKey::verify` with the `ED25519`
/// algorithm: whether the signature verifies. The contract names the answer
/// and does not describe it.
#[verifier::external_body]
fn ed25519_verify(public_key: &[u8], message: &[u8], signature: &[u8]) -> (valid: bool)
    ensures
        valid == ed25519_verifies(public_key@, message@, signature@),
{
    UnparsedPublicKey::new(&ED25519, public_key).verify(message, signature).is_ok()
}

/// The signature a signer gives a receipt: the Ed25519 signature of the
/// unsigned receipt's encoding, under the key pair seeded by the SHA-256 of
/// the signer identity's encoding.
pub fn receipt_signature(identity_encoding: &[u8], unsigned_encoding: &[u8]) -> (signature: Vec<u8>)
    ensures
        signature@ == ed25519_signature(sha256_of(identity_encoding@), unsigned_encoding@),
{
    let seed = sha256(identity_encoding);
    match seeded_signature(seed.as_slice(), unsigned_encoding) {
        Some(signature) => signature,
        None => Vec::new(),
    }
}

/// Whether a receipt's signature verifies: under the public key seeded by
/// the SHA-256 of the signer identity's encoding, for the encoding of the
/// receipt with its signature removed.
pub fn receipt_signature_valid(identity_encoding: &[u8], unsigned_encoding: &[u8], signature: &[u8]) -> (valid: bool)
    ensures
        valid == ed25519_verifies(
            ed25519_public_key(sha256_of(identity_encoding@)),
            unsigned_encoding@,
            signature@,
        ),
{
    let seed = sha256(identity_encoding);
    match seeded_public_key(seed.as_slice()) {
        Some(public_key) => ed25519_verify(public_key.as_slice(), unsigned_encoding, signature),
        None => false,
    }
}

} // verus!
