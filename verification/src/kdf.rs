//! Password-based key derivation.
//!
//! A human password plus a per-record salt is turned into a fixed-length
//! symmetric key by a deliberately expensive, tunable derivation function.
//! Derivation is deterministic: identical inputs always yield the same key.

use vstd::prelude::*;

verus! {

/// Number of derivation rounds; tuned to make offline brute force expensive.
pub const KDF_ITERATIONS: usize = 600000;

/// Length in bytes of every derived symmetric key.
pub const KEY_LEN: usize = 32;

/// The derived key as a function of password, salt, round count and length
/// alone; the derivation is deterministic, so naming its result is sound.
pub uninterp spec fn kdf_of(password: Seq<u8>, salt: Seq<u8>, iterations: int, out_len: int) -> Seq<u8>;

/// The key that this library derives for a password and salt.
pub open spec fn derived_key(password: Seq<u8>, salt: Seq<u8>) -> Seq<u8> {
    kdf_of(password, salt, KDF_ITERATIONS as int, KEY_LEN as int)
}

/// Relies on openssl::pkcs5::pbkdf2_hmac with HMAC-SHA-256: the derived key
/// is a deterministic function of the password, the salt, the iteration
/// count and the requested length, and fills exactly the requested number of
/// bytes. Aborts on an unrecoverable failure inside the primitive, which the
/// error model treats as a fatal misconfiguration rather than a runtime error.
#[verifier::external_body]
fn pbkdf2_sha256(password: &[u8], salt: &[u8], iterations: usize, out_len: usize) -> (r: Vec<u8>)
    requires
        password@.len() < 0x8000_0000,
        salt@.len() < 0x8000_0000,
        0 < iterations < 0x8000_0000,
        0 < out_len < 0x8000_0000,
    ensures
        r@.len() == out_len,
        r@ == kdf_of(password@, salt@, iterations as int, out_len as int),
{
    let mut key = vec![0u8; out_len];
    openssl::pkcs5::pbkdf2_hmac(
        password,
        salt,
        iterations,
        openssl::hash::MessageDigest::sha256(),
        &mut key,
    )
    .expect("key derivation parameters are fixed and valid");
    key
}

/// Derive the symmetric key protecting one record from its password and salt.
pub fn derive_key(password: &[u8], salt: &[u8]) -> (key: Vec<u8>)
    requires
        password@.len() < 0x8000_0000,
        salt@.len() < 0x8000_0000,
    ensures
        key@ == derived_key(password@, salt@),
        key@.len() == KEY_LEN,
{
    pbkdf2_sha256(password, salt, KDF_ITERATIONS, KEY_LEN)
}

/// Law: key derivation is deterministic. Two keys derived from the same
/// password and the same salt are byte-identical.
pub proof fn lemma_derive_key_deterministic(password: Seq<u8>, salt: Seq<u8>, k1: Seq<u8>, k2: Seq<u8>)
    requires
        k1 == derived_key(password, salt),
        k2 == derived_key(password, salt),
    ensures
        k1 == k2,
{
}

} // verus!
