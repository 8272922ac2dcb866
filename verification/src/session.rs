//! The account session.
//!
//! The session holds the master unlock state and the single active unlocked
//! keypair. On the first-ever unlock the master password is hashed and kept
//! as the master credential; every later unlock verifies against that hash.
//! Activation replaces the active account atomically: it either installs a
//! fully valid keypair or leaves the previous one untouched.

use vstd::prelude::*;
use vstd::utf8::encode_utf8;
use crate::keystore::{account_openable, activation_error_of, unseal_record, verify_and_fetch_keypair, ActivationError};
use crate::sr25519::{pubkey_of, sig_valid, KeyPair};
use crate::store::AccountStore;

verus! {

/// Errors of session unlocking.
#[derive(Debug, Clone, Copy, PartialEq, Eq, Structural)]
pub enum UnlockErrors {
    InvalidPassword,
}

/// Whether the master-credential check accepts a password for a stored
/// hash; verification is a deterministic function of the two, so naming its
/// result is sound. The hash embeds its own salt and cost, so nothing else
/// enters the outcome.
pub uninterp spec fn bcrypt_match(password: Seq<char>, hash: Seq<char>) -> bool;

/// Relies on pwhash::bcrypt::hash: the result embeds a fresh salt and the
/// default cost, and pwhash::bcrypt::verify accepts the same password
/// against it. Aborts when the entropy source for the salt is unavailable,
/// which the error model treats as a fatal misconfiguration rather than a
/// runtime error.
#[verifier::external_body]
fn bcrypt_hash(password: &str) -> (r: String)
    ensures
        bcrypt_match(password@, r@),
{
    pwhash::bcrypt::hash(password).expect("the system entropy source is available")
}

/// Relies on pwhash::bcrypt::verify: the outcome is a deterministic
/// function of the password and the hash string, which embeds its own salt
/// and cost; a malformed hash never verifies.
#[verifier::external_body]
fn bcrypt_verify(password: &str, hash: &str) -> (r: bool)
    ensures
        r == bcrypt_match(password@, hash@),
{
    pwhash::bcrypt::verify(password, hash)
}

/// The in-memory session: the master credential and unlock state, and the
/// single active account. Never persisted.
pub struct SessionState {
    master_hash: Option<String>,
    unlocked: bool,
    active: Option<KeyPair>,
}

impl SessionState {
    /// The stored master-credential hash, when one exists.
    pub closed spec fn master_view(&self) -> Option<Seq<char>> {
        match self.master_hash {
            Some(h) => Some(h@),
            None => None,
        }
    }

    /// Whether the session has been unlocked.
    pub closed spec fn is_unlocked(&self) -> bool {
        self.unlocked
    }

    /// The active keypair, when one is installed.
    pub closed spec fn active_view(&self) -> Option<KeyPair> {
        self.active
    }

    /// Whatever keypair is active is fully valid: its public key is the one
    /// its own seed determines.
    pub open spec fn wf(&self) -> bool {
        match self.active_view() {
            Some(kp) => kp.wf(),
            None => true,
        }
    }

    /// A fresh session: locked, with the master credential read from
    /// storage — or none on a first run — and no active account.
    pub fn new(stored_master_hash: Option<String>) -> (r: SessionState)
        ensures
            r.wf(),
            !r.is_unlocked(),
            r.active_view() is None,
            match stored_master_hash {
                Some(h) => r.master_view() == Some(h@),
                None => r.master_view() is None,
            },
    {
        SessionState { master_hash: stored_master_hash, unlocked: false, active: None }
    }

    /// The stored master-credential hash, for persistence outside the
    /// library.
    pub fn master_hash(&self) -> (r: &Option<String>)
        ensures
            match r {
                Some(h) => self.master_view() == Some(h@),
                None => self.master_view() is None,
            },
    {
        &self.master_hash
    }

    /// Unlock the session. On the first-ever unlock the password is hashed
    /// and becomes the master credential; on every later unlock the password
    /// is verified against the stored hash and rejected when it does not
    /// match, revealing nothing about stored key material.
    pub fn unlock(&mut self, password: &str) -> (r: Result<(), UnlockErrors>)
        requires
            old(self).wf(),
        ensures
            final(self).wf(),
            final(self).active_view() == old(self).active_view(),
            match old(self).master_view() {
                None => r is Ok && final(self).is_unlocked() && (
                final(self).master_view() matches Some(h) && bcrypt_match(password@, h)),
                Some(h) => {
                    &&& (r is Ok <==> bcrypt_match(password@, h))
                    &&& final(self).master_view() == old(self).master_view()
                    &&& (r is Ok ==> final(self).is_unlocked())
                    &&& (r is Err ==> final(self).is_unlocked() == old(self).is_unlocked() && r
                        == Err::<(), UnlockErrors>(UnlockErrors::InvalidPassword))
                },
            },
    {
        if self.master_hash.is_none() {
            let h = bcrypt_hash(password);
            self.master_hash = Some(h);
            self.unlocked = true;
            return Ok(());
        }
        let verified: bool = match &self.master_hash {
            Some(h) => bcrypt_verify(password, h.as_str()),
            None => false,
        };
        if verified {
            self.unlocked = true;
            Ok(())
        } else {
            Err(UnlockErrors::InvalidPassword)
        }
    }

    /// Lock the session again: the active account is cleared and unlocking
    /// is required anew. The master credential is unchanged.
    pub fn lock(&mut self)
        requires
            old(self).wf(),
        ensures
            final(self).wf(),
            !final(self).is_unlocked(),
            final(self).active_view() is None,
            final(self).master_view() == old(self).master_view(),
    {
        self.unlocked = false;
        self.active = None;
    }

    /// Clear the active account without touching the unlock state.
    pub fn deactivate(&mut self)
        requires
            old(self).wf(),
        ensures
            final(self).wf(),
            final(self).active_view() is None,
            final(self).is_unlocked() == old(self).is_unlocked(),
            final(self).master_view() == old(self).master_view(),
    {
        self.active = None;
    }

    /// Activate the named account: load its record, open it with the
    /// account's password, check the self-signature, and install the
    /// recovered keypair as the active one. On any failure the previously
    /// active account is left exactly as it was.
    pub fn activate(&mut self, store: &AccountStore, name: &String, password: &str) -> (r: Result<
        (),
        ActivationError,
    >)
        requires
            old(self).wf(),
            old(self).is_unlocked(),
            store.wf(),
            encode_utf8(password@).len() < 0x8000_0000,
        ensures
            final(self).wf(),
            final(self).is_unlocked(),
            final(self).master_view() == old(self).master_view(),
            match r {
                Ok(()) => {
                    &&& store.has_name(name@)
                    &&& account_openable(store.blob_of(name@), encode_utf8(password@))
                    &&& final(self).active_view() matches Some(kp) && kp.wf() && match unseal_record(
                        store.blob_of(name@),
                        encode_utf8(password@),
                    ) {
                        Some(k) => kp.public_view() == k.public_key && kp.seed_view() == k.seed,
                        None => false,
                    }
                },
                Err(e) => {
                    &&& final(self).active_view() == old(self).active_view()
                    &&& !(store.has_name(name@) && account_openable(
                        store.blob_of(name@),
                        encode_utf8(password@),
                    ))
                    &&& (e == ActivationError::NotFound <==> !store.has_name(name@))
                    &&& (store.has_name(name@) ==> e == activation_error_of(
                        store.blob_of(name@),
                        encode_utf8(password@),
                    ))
                },
            },
    {
        match verify_and_fetch_keypair(store, name, password) {
            Ok(kp) => {
                self.active = Some(kp);
                Ok(())
            },
            Err(e) => Err(e),
        }
    }

    /// Whether the session has been unlocked.
    pub fn unlocked(&self) -> (r: bool)
        ensures
            r == self.is_unlocked(),
    {
        self.unlocked
    }

    /// The public key of the active account, when one is active.
    pub fn active_public(&self) -> (r: Option<&Vec<u8>>)
        ensures
            match r {
                Some(pk) => self.active_view() matches Some(kp) && pk@ == kp.public_view(),
                None => self.active_view() is None,
            },
    {
        match &self.active {
            Some(kp) => Some(kp.public()),
            None => None,
        }
    }

    /// Sign a message with the active account's key, when one is active.
    /// The signature verifies under the active account's own public key.
    pub fn sign_with_active(&self, ctx: &[u8], message: &[u8]) -> (r: Option<Vec<u8>>)
        requires
            self.wf(),
            ctx@.len() < 0x1_0000_0000,
            message@.len() < 0x1_0000_0000,
        ensures
            match r {
                Some(sig) => self.active_view() matches Some(kp) && sig_valid(
                    ctx@,
                    kp.public_view(),
                    message@,
                    sig@,
                ) && sig@.len() == 64,
                None => self.active_view() is None,
            },
    {
        match &self.active {
            Some(kp) => Some(kp.sign(ctx, message)),
            None => None,
        }
    }
}

/// Law: the session never exposes a mixed identity. Whatever account is
/// active in a well-formed session, its public key is exactly the one that
/// its own private seed determines.
pub proof fn lemma_active_never_mixed(s: SessionState, kp: KeyPair)
    requires
        s.wf(),
        s.active_view() == Some(kp),
    ensures
        kp.public_view() == pubkey_of(kp.seed_view()),
{
}

} // verus!
