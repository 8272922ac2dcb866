//! Keypairs, signing and verification.
//!
//! A keypair is reconstructed deterministically from a fixed-length private
//! seed; it exposes exactly its public key and a signing operation. The
//! self-signature stored in each record is checked against the record's own
//! public key when an account is activated.

use vstd::prelude::*;
use crate::record::{PUBLIC_KEY_LEN, SEED_LEN, SIGNATURE_LEN};

verus! {

/// The public key determined by a 32-byte seed; key expansion is
/// deterministic, so naming its result is sound.
pub uninterp spec fn pubkey_of(seed: Seq<u8>) -> Seq<u8>;

/// Whether a signature verifies for a context, public key and message;
/// verification is a deterministic function of these bytes alone, so naming
/// its result is sound.
pub uninterp spec fn sig_valid(ctx: Seq<u8>, public_key: Seq<u8>, message: Seq<u8>, signature: Seq<u8>) -> bool;

/// Relies on schnorrkel's MiniSecretKey::expand_to_keypair in Ed25519 mode:
/// the 32-byte public key is a deterministic function of the 32-byte seed.
#[verifier::external_body]
fn sr_public(seed: &[u8]) -> (r: Vec<u8>)
    requires
        seed@.len() == SEED_LEN,
    ensures
        r@ == pubkey_of(seed@),
        r@.len() == PUBLIC_KEY_LEN,
{
    let mini = schnorrkel::MiniSecretKey::from_bytes(seed).expect("seed length is fixed");
    let keypair = mini.expand_to_keypair(schnorrkel::ExpansionMode::Ed25519);
    keypair.public.to_bytes().to_vec()
}

/// Relies on schnorrkel's Keypair::sign_simple: a produced signature is 64
/// bytes and always verifies under the same context and message with the
/// seed's public key. Signatures are randomized, so nothing more is assumed
/// of their bytes. The context and message lengths stay within what the
/// signing transcript accepts.
#[verifier::external_body]
fn sr_sign(seed: &[u8], ctx: &[u8], message: &[u8]) -> (r: Vec<u8>)
    requires
        seed@.len() == SEED_LEN,
        ctx@.len() < 0x1_0000_0000,
        message@.len() < 0x1_0000_0000,
    ensures
        r@.len() == SIGNATURE_LEN,
        sig_valid(ctx@, pubkey_of(seed@), message@, r@),
{
    let mini = schnorrkel::MiniSecretKey::from_bytes(seed).expect("seed length is fixed");
    let keypair = mini.expand_to_keypair(schnorrkel::ExpansionMode::Ed25519);
    keypair.sign_simple(ctx, message).to_bytes().to_vec()
}

/// Relies on schnorrkel's PublicKey::verify_simple: verification is a
/// deterministic function of the context, public-key, message and signature
/// bytes; bytes that decode to no valid key or signature never verify. The
/// context and message lengths stay within what the transcript accepts.
#[verifier::external_body]
fn sr_verify(ctx: &[u8], public_key: &[u8], message: &[u8], signature: &[u8]) -> (r: bool)
    requires
        ctx@.len() < 0x1_0000_0000,
        message@.len() < 0x1_0000_0000,
    ensures
        r == sig_valid(ctx@, public_key@, message@, signature@),
{
    let pk = match schnorrkel::PublicKey::from_bytes(public_key) {
        Ok(pk) => pk,
        Err(_) => return false,
    };
    let sig = match schnorrkel::Signature::from_bytes(signature) {
        Ok(sig) => sig,
        Err(_) => return false,
    };
    pk.verify_simple(ctx, message, &sig).is_ok()
}

/// Relies on rand's OsRng, the operating system's entropy source, to fill a
/// buffer of the requested length; nothing is assumed of the values. Aborts
/// when the entropy source is unavailable, which the error model treats as a
/// fatal misconfiguration rather than a runtime error.
#[verifier::external_body]
pub(crate) fn random_bytes(n: usize) -> (r: Vec<u8>)
    ensures
        r@.len() == n,
{
    let mut buf = vec![0u8; n];
    rand::RngCore::fill_bytes(&mut rand::rngs::OsRng, &mut buf);
    buf
}

/// An unlocked keypair: the private seed and the public key it determines.
/// The seed never leaves the type except through the creation and
/// persistence path.
pub struct KeyPair {
    public_key: Vec<u8>,
    seed: Vec<u8>,
}

impl KeyPair {
    /// The private seed, visible to specifications only.
    pub closed spec fn seed_view(&self) -> Seq<u8> {
        self.seed@
    }

    /// The public key bytes, visible to specifications.
    pub closed spec fn public_view(&self) -> Seq<u8> {
        self.public_key@
    }

    /// A keypair whose public key is the one its seed determines: no partial
    /// or mixed keypair is well-formed.
    pub open spec fn wf(&self) -> bool {
        &&& self.seed_view().len() == SEED_LEN
        &&& self.public_view() == pubkey_of(self.seed_view())
        &&& self.public_view().len() == PUBLIC_KEY_LEN
    }

    /// Reconstruct the keypair a seed determines.
    pub fn from_seed(seed: Vec<u8>) -> (r: KeyPair)
        requires
            seed@.len() == SEED_LEN,
        ensures
            r.wf(),
            r.seed_view() == seed@,
            r.public_view() == pubkey_of(seed@),
    {
        let public_key = sr_public(seed.as_slice());
        KeyPair { public_key, seed }
    }

    /// The public key of this keypair.
    pub fn public(&self) -> (r: &Vec<u8>)
        ensures
            r@ == self.public_view(),
    {
        &self.public_key
    }

    /// Sign a message in a signing context with this keypair's private seed.
    pub fn sign(&self, ctx: &[u8], message: &[u8]) -> (r: Vec<u8>)
        requires
            self.wf(),
            ctx@.len() < 0x1_0000_0000,
            message@.len() < 0x1_0000_0000,
        ensures
            r@.len() == SIGNATURE_LEN,
            sig_valid(ctx@, self.public_view(), message@, r@),
    {
        sr_sign(self.seed.as_slice(), ctx, message)
    }

    /// The private seed, released only to the creation and persistence path.
    pub fn seed_bytes(&self) -> (r: &Vec<u8>)
        ensures
            r@ == self.seed_view(),
    {
        &self.seed
    }
}

/// Check a self-signature against a record's own public key.
pub fn verify_signature(ctx: &[u8], public_key: &[u8], message: &[u8], signature: &[u8]) -> (r: bool)
    requires
        ctx@.len() < 0x1_0000_0000,
        message@.len() < 0x1_0000_0000,
    ensures
        r == sig_valid(ctx@, public_key@, message@, signature@),
{
    sr_verify(ctx, public_key, message, signature)
}

} // verus!
