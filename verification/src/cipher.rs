//! Authenticated encryption of serialized records.
//!
//! Records are protected by an authenticated cipher: decryption either
//! recovers exactly the bytes that were encrypted, or fails outright when
//! the key is wrong or the data was tampered with.

use vstd::prelude::*;

verus! {

/// Length in bytes of a cipher nonce.
pub const NONCE_LEN: usize = 12;

/// Length in bytes of an authentication tag.
pub const TAG_LEN: usize = 16;

/// Raised when authenticated decryption rejects the ciphertext.
#[derive(Debug, Clone, Copy, PartialEq, Eq, Structural)]
pub enum DecryptError {
    AuthenticationFailed,
}

/// What authenticated decryption returns for a key, nonce, ciphertext and
/// tag: either the unique plaintext that they authenticate, or nothing.
/// Decryption is a deterministic function of these four inputs alone, so
/// naming its result is sound.
pub uninterp spec fn open_of(key: Seq<u8>, nonce: Seq<u8>, ciphertext: Seq<u8>, tag: Seq<u8>) -> Option<Seq<u8>>;

/// Relies on openssl::symm::encrypt_aead with AES-256-GCM: with a 32-byte
/// key, a 12-byte nonce and a 16-byte tag buffer, encryption succeeds,
/// the ciphertext has the plaintext's length, and authenticated decryption
/// with the same key and nonce recovers exactly the plaintext. Aborts on an
/// unrecoverable failure inside the primitive, which the error model treats
/// as a fatal misconfiguration rather than a runtime error.
#[verifier::external_body]
fn aes_gcm_encrypt(key: &[u8], nonce: &[u8], plaintext: &[u8]) -> (r: (Vec<u8>, Vec<u8>))
    requires
        key@.len() == 32,
        nonce@.len() == NONCE_LEN,
        plaintext@.len() < 0x4000_0000,
    ensures
        r.0@.len() == plaintext@.len(),
        r.1@.len() == TAG_LEN,
        open_of(key@, nonce@, r.0@, r.1@) == Some(plaintext@),
{
    let mut tag = vec![0u8; TAG_LEN];
    let ciphertext = openssl::symm::encrypt_aead(
        openssl::symm::Cipher::aes_256_gcm(),
        key,
        Some(nonce),
        &[],
        plaintext,
        &mut tag,
    )
    .expect("authenticated encryption with valid parameters");
    (ciphertext, tag)
}

/// Relies on openssl::symm::decrypt_aead with AES-256-GCM: authenticated
/// decryption is a deterministic function of key, nonce, ciphertext and tag;
/// it returns a plaintext exactly when the tag authenticates the ciphertext
/// under that key and nonce, and fails otherwise. The tag length is fixed,
/// which keeps the call within the sizes the primitive accepts.
#[verifier::external_body]
fn aes_gcm_decrypt(key: &[u8], nonce: &[u8], ciphertext: &[u8], tag: &[u8]) -> (r: Option<Vec<u8>>)
    requires
        key@.len() == 32,
        nonce@.len() == NONCE_LEN,
        ciphertext@.len() < 0x4000_0000,
        tag@.len() == TAG_LEN,
    ensures
        match r {
            Some(p) => open_of(key@, nonce@, ciphertext@, tag@) == Some(p@),
            None => open_of(key@, nonce@, ciphertext@, tag@) is None,
        },
{
    match openssl::symm::decrypt_aead(
        openssl::symm::Cipher::aes_256_gcm(),
        key,
        Some(nonce),
        &[],
        ciphertext,
        tag,
    ) {
        Ok(plaintext) => Some(plaintext),
        Err(_) => None,
    }
}

/// Encrypt a plaintext under a derived key and a fresh nonce, returning the
/// ciphertext and its authentication tag.
pub fn encrypt(plaintext: &[u8], key: &[u8], nonce: &[u8]) -> (r: (Vec<u8>, Vec<u8>))
    requires
        key@.len() == 32,
        nonce@.len() == NONCE_LEN,
        plaintext@.len() < 0x4000_0000,
    ensures
        r.0@.len() == plaintext@.len(),
        r.1@.len() == TAG_LEN,
        open_of(key@, nonce@, r.0@, r.1@) == Some(plaintext@),
{
    aes_gcm_encrypt(key, nonce, plaintext)
}

/// Decrypt a ciphertext under a derived key; fails when the key is wrong or
/// the data is corrupted.
pub fn decrypt(ciphertext: &[u8], tag: &[u8], key: &[u8], nonce: &[u8]) -> (r: Result<Vec<u8>, DecryptError>)
    requires
        key@.len() == 32,
        nonce@.len() == NONCE_LEN,
        ciphertext@.len() < 0x4000_0000,
        tag@.len() == TAG_LEN,
    ensures
        match r {
            Ok(p) => open_of(key@, nonce@, ciphertext@, tag@) == Some(p@),
            Err(e) => open_of(key@, nonce@, ciphertext@, tag@) is None
                && e == DecryptError::AuthenticationFailed,
        },
{
    match aes_gcm_decrypt(key, nonce, ciphertext, tag) {
        Some(plaintext) => Ok(plaintext),
        None => Err(DecryptError::AuthenticationFailed),
    }
}

} // verus!
