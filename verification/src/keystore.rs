//! Creation and recovery of encrypted keystore records.
//!
//! An account is created by generating a fresh keypair and recovery phrase,
//! signing the fixed domain message with the new key, and sealing the
//! serialized record under a key derived from the account's password and a
//! fresh per-record salt. Opening a record reverses the steps and accepts
//! the result only when the embedded self-signature verifies against the
//! record's own public key — the check that turns a silent wrong-password
//! decryption into a rejection.

use vstd::prelude::*;
use vstd::slice::slice_to_vec;
use vstd::utf8::encode_utf8;
use crate::cipher;
use crate::cipher::{open_of, NONCE_LEN};
use crate::file_manager::{get_path, FileErrors};
use crate::kdf::{derive_key, derived_key};
use crate::mnemonic::{encode_phrase, phrase_of};
use crate::record::{
    decode_keystore, decode_record, encode_frame, encode_keystore, encode_record, frame_ct, frame_nonce, frame_salt,
    frame_tag, frame_wf, keystore_wf, Keystore, KeystoreView, SALT_LEN, SEED_LEN,
};
use crate::sr25519::{pubkey_of, random_bytes, sig_valid, verify_signature, KeyPair};
use crate::store::AccountStore;

verus! {

/// Errors of account creation.
#[derive(Debug, Clone, Copy, PartialEq, Eq, Structural)]
pub enum CreationError {
    DuplicateName,
}

/// Errors of account activation. A wrong password and a failed integrity
/// check surface alike, since both stem from an incorrect key; malformed
/// record content after a successful decryption is kept distinct.
#[derive(Debug, Clone, Copy, PartialEq, Eq, Structural)]
pub enum ActivationError {
    NotFound,
    WrongPassword,
    CorruptRecord,
}

/// What account creation hands back to the caller, exactly once: the
/// account's public identity, its freshly generated password and its
/// recovery phrase.
pub struct Account {
    pub address: Vec<u8>,
    pub password: String,
    pub mnemonic: String,
}

/// The fixed domain message every account signs at creation time.
pub open spec fn domain_msg() -> Seq<u8> {
    seq![
        70u8, 114, 111, 115, 116, 98, 121, 116, 101, 32, 105, 115, 32, 97, 119, 101, 115, 111,
        109, 101, 33,
    ]
}

/// The signing context under which self-signatures are made and checked.
pub open spec fn sign_ctx() -> Seq<u8> {
    seq![115u8, 117, 98, 115, 116, 114, 97, 116, 101]
}

/// The domain message, as bytes.
pub fn domain_message() -> (r: Vec<u8>)
    ensures
        r@ == domain_msg(),
{
    let mut v: Vec<u8> = Vec::new();
    v.push(70);
    v.push(114);
    v.push(111);
    v.push(115);
    v.push(116);
    v.push(98);
    v.push(121);
    v.push(116);
    v.push(101);
    v.push(32);
    v.push(105);
    v.push(115);
    v.push(32);
    v.push(97);
    v.push(119);
    v.push(101);
    v.push(115);
    v.push(111);
    v.push(109);
    v.push(101);
    v.push(33);
    proof {
        assert(v@ =~= domain_msg());
    }
    v
}

/// The signing context, as bytes.
pub fn signing_context() -> (r: Vec<u8>)
    ensures
        r@ == sign_ctx(),
{
    let mut v: Vec<u8> = Vec::new();
    v.push(115);
    v.push(117);
    v.push(98);
    v.push(115);
    v.push(116);
    v.push(114);
    v.push(97);
    v.push(116);
    v.push(101);
    proof {
        assert(v@ =~= sign_ctx());
    }
    v
}

/// The plaintext recovered when a sealed blob is opened with a password:
/// the stored salt derives the key, and authenticated decryption either
/// returns the serialized record or nothing.
pub open spec fn unseal(blob: Seq<u8>, password: Seq<u8>) -> Option<Seq<u8>> {
    if frame_wf(blob) {
        open_of(
            derived_key(password, frame_salt(blob)),
            frame_nonce(blob),
            frame_ct(blob),
            frame_tag(blob),
        )
    } else {
        None
    }
}

/// The record recovered when a sealed blob is opened with a password.
pub open spec fn unseal_record(blob: Seq<u8>, password: Seq<u8>) -> Option<KeystoreView> {
    match unseal(blob, password) {
        Some(plain) => decode_keystore(plain),
        None => None,
    }
}

/// A record whose key material is internally consistent: the public key is
/// the one its seed determines, and the self-signature over the domain
/// message verifies against that public key.
pub open spec fn valid_record(k: KeystoreView) -> bool {
    &&& keystore_wf(k)
    &&& k.public_key == pubkey_of(k.seed)
    &&& k.message == domain_msg()
    &&& sig_valid(sign_ctx(), k.public_key, k.message, k.signature)
}

/// Whether a sealed blob opens under a password into a valid record: the
/// condition under which activation succeeds.
pub open spec fn account_openable(blob: Seq<u8>, password: Seq<u8>) -> bool {
    match unseal_record(blob, password) {
        Some(k) => valid_record(k),
        None => false,
    }
}

/// The error activation reports for a blob that does not open into a valid
/// record: an authentication or integrity failure counts as a wrong
/// password, malformed content as a corrupt record.
pub open spec fn activation_error_of(blob: Seq<u8>, password: Seq<u8>) -> ActivationError
    recommends
        !account_openable(blob, password),
{
    match unseal_record(blob, password) {
        Some(k) => ActivationError::WrongPassword,
        None => if frame_wf(blob) && unseal(blob, password) is None {
            ActivationError::WrongPassword
        } else {
            ActivationError::CorruptRecord
        },
    }
}

/// Byte-for-byte equality of two slices.
fn bytes_equal(a: &[u8], b: &[u8]) -> (r: bool)
    ensures
        r == (a@ == b@),
{
    if a.len() != b.len() {
        proof {
            assert(a@.len() != b@.len());
        }
        return false;
    }
    let mut i: usize = 0;
    while i < a.len()
        invariant
            i <= a@.len(),
            a@.len() == b@.len(),
            forall|j: int| 0 <= j < i ==> a@[j] == b@[j],
        decreases a@.len() - i,
    {
        if a[i] != b[i] {
            return false;
        }
        i = i + 1;
    }
    proof {
        assert(a@ =~= b@);
    }
    true
}

/// The keystore directory under the application's base directory. The
/// directory is created when missing, so resolution always succeeds.
pub fn get_keystore_path(base: &str, dir_exists: bool) -> (r: Result<String, FileErrors>)
    ensures
        r matches Ok(p) && p@ == base@ + "/"@ + "keystore"@,
{
    match get_path(base, "keystore", true, dir_exists) {
        Ok(path) => Ok(path),
        Err(err) => match err {
            FileErrors::DoesNotExist => Err(err),
        },
    }
}

/// Seal a record under a password: serialize it, derive the key from the
/// password and the fresh salt, encrypt, and frame salt, nonce and tag
/// around the ciphertext. Opening the result with the same password gives
/// back exactly the record.
pub fn encrypt_record(record: &Keystore, password: &[u8], salt: &[u8], nonce: &[u8]) -> (r: Vec<
    u8,
>)
    requires
        keystore_wf(record@),
        password@.len() < 0x8000_0000,
        salt@.len() == SALT_LEN,
        nonce@.len() == NONCE_LEN,
    ensures
        unseal_record(r@, password@) == Some(record@),
        frame_wf(r@),
        frame_salt(r@) == salt@,
        r@.len() <= 0x4000_0000,
{
    let plain = encode_record(record);
    let key = derive_key(password, salt);
    let (ciphertext, tag) = cipher::encrypt(plain.as_slice(), key.as_slice(), nonce);
    let blob = encode_frame(salt, nonce, tag.as_slice(), ciphertext.as_slice());
    proof {
        assert(unseal(blob@, password@) == Some(plain@));
        crate::record::lemma_record_round_trip(record@);
    }
    blob
}

/// Open a sealed blob with a password: read the salt, derive the key,
/// decrypt under the tag's authentication and deserialize. Fails with a
/// wrong-password error when authentication rejects the key, and with a
/// corrupt-record error when the frame or the decrypted content is
/// malformed.
pub fn decrypt_record(blob: &[u8], password: &[u8]) -> (r: Result<Keystore, ActivationError>)
    requires
        password@.len() < 0x8000_0000,
        blob@.len() <= 0x4000_0000,
    ensures
        match r {
            Ok(k) => unseal_record(blob@, password@) == Some(k@) && keystore_wf(k@),
            Err(e) => unseal_record(blob@, password@) is None && e == activation_error_of(
                blob@,
                password@,
            ),
        },
{
    if blob.len() < crate::record::FRAME_HEADER_LEN {
        return Err(ActivationError::CorruptRecord);
    }
    let salt = vstd::slice::slice_subrange(blob, 0, 16);
    let nonce = vstd::slice::slice_subrange(blob, 16, 28);
    let tag = vstd::slice::slice_subrange(blob, 28, 44);
    let ciphertext = vstd::slice::slice_subrange(blob, 44, blob.len());
    let key = derive_key(password, salt);
    match cipher::decrypt(ciphertext, tag, key.as_slice(), nonce) {
        Ok(plain) => match decode_record(plain.as_slice()) {
            Some(k) => Ok(k),
            None => Err(ActivationError::CorruptRecord),
        },
        Err(_) => Err(ActivationError::WrongPassword),
    }
}

/// Generate a fresh account: a random seed and its keypair, the recovery
/// phrase of the seed, a self-signature over the domain message, and the
/// record sealed under the password with a fresh salt — then store it under
/// the name, never overwriting an existing record. The returned account
/// opens under the password it was sealed with.
pub fn generate_keypair(store: &mut AccountStore, name: String, password: &str) -> (r: Result<
    Account,
    CreationError,
>)
    requires
        old(store).wf(),
        encode_utf8(password@).len() < 0x8000_0000,
    ensures
        final(store).wf(),
        match r {
            Ok(account) => {
                &&& !old(store).has_name(name@)
                &&& final(store).names_view() == old(store).names_view().push(name@)
                &&& final(store).has_name(name@)
                &&& forall|n: Seq<char>|
                    old(store).has_name(n) ==> final(store).has_name(n) && final(store).blob_of(n)
                        == old(store).blob_of(n)
                &&& account_openable(final(store).blob_of(name@), encode_utf8(password@))
                &&& match unseal_record(final(store).blob_of(name@), encode_utf8(password@)) {
                    Some(k) => account.address@ == k.public_key && account.mnemonic@ == phrase_of(
                        k.seed,
                    ),
                    None => false,
                }
                &&& account.password@ == password@
            },
            Err(e) => {
                &&& e == CreationError::DuplicateName
                &&& old(store).has_name(name@)
                &&& *final(store) == *old(store)
            },
        },
{
    let seed = random_bytes(SEED_LEN);
    let keypair = KeyPair::from_seed(seed);
    let message = domain_message();
    let ctx = signing_context();
    let signature = keypair.sign(ctx.as_slice(), message.as_slice());
    let record = Keystore {
        public_key: slice_to_vec(keypair.public().as_slice()),
        seed: slice_to_vec(keypair.seed_bytes().as_slice()),
        signature,
        message,
    };
    let salt = random_bytes(SALT_LEN);
    let nonce = random_bytes(NONCE_LEN);
    let blob = encrypt_record(&record, password.as_bytes(), salt.as_slice(), nonce.as_slice());
    let mnemonic = encode_phrase(record.seed.as_slice());
    let address = slice_to_vec(record.public_key.as_slice());
    match store.write(name, blob) {
        Ok(()) => Ok(Account { address, password: password.to_owned(), mnemonic }),
        Err(_) => Err(CreationError::DuplicateName),
    }
}

/// Fetch the record stored under a name, open it with the password, verify
/// the embedded self-signature against the record's own public key, and
/// reconstruct the keypair from the recovered seed. No partially valid
/// keypair is ever returned.
pub fn verify_and_fetch_keypair(store: &AccountStore, account_name: &String, password: &str) -> (r:
    Result<KeyPair, ActivationError>)
    requires
        store.wf(),
        encode_utf8(password@).len() < 0x8000_0000,
    ensures
        match r {
            Ok(kp) => {
                &&& store.has_name(account_name@)
                &&& kp.wf()
                &&& account_openable(store.blob_of(account_name@), encode_utf8(password@))
                &&& match unseal_record(store.blob_of(account_name@), encode_utf8(password@)) {
                    Some(k) => kp.public_view() == k.public_key && kp.seed_view() == k.seed,
                    None => false,
                }
            },
            Err(e) => {
                &&& !(store.has_name(account_name@) && account_openable(
                    store.blob_of(account_name@),
                    encode_utf8(password@),
                ))
                &&& (e == ActivationError::NotFound <==> !store.has_name(account_name@))
                &&& store.has_name(account_name@) ==> e == activation_error_of(
                    store.blob_of(account_name@),
                    encode_utf8(password@),
                )
            },
        },
{
    let blob = match store.read(account_name) {
        Ok(b) => b,
        Err(_) => {
            return Err(ActivationError::NotFound);
        },
    };
    proof {
        store.lemma_blob_len(account_name@);
    }
    let record = match decrypt_record(blob.as_slice(), password.as_bytes()) {
        Ok(k) => k,
        Err(e) => {
            return Err(e);
        },
    };
    let kp = KeyPair::from_seed(slice_to_vec(record.seed.as_slice()));
    if !bytes_equal(kp.public().as_slice(), record.public_key.as_slice()) {
        return Err(ActivationError::WrongPassword);
    }
    let message = domain_message();
    if !bytes_equal(record.message.as_slice(), message.as_slice()) {
        return Err(ActivationError::WrongPassword);
    }
    let ctx = signing_context();
    if !verify_signature(
        ctx.as_slice(),
        record.public_key.as_slice(),
        record.message.as_slice(),
        record.signature.as_slice(),
    ) {
        return Err(ActivationError::WrongPassword);
    }
    Ok(kp)
}

/// Law: sealing round-trips. A blob framed from a salt, a nonce, and a
/// ciphertext with the tag that authenticates it back to the serialized
/// bytes of a well-formed record opens, under the password the key was
/// derived from, into exactly that record.
pub proof fn lemma_seal_open_round_trip(
    blob: Seq<u8>,
    password: Seq<u8>,
    k: KeystoreView,
    salt: Seq<u8>,
    nonce: Seq<u8>,
    tag: Seq<u8>,
    ciphertext: Seq<u8>,
)
    requires
        keystore_wf(k),
        salt.len() == 16,
        nonce.len() == 12,
        tag.len() == 16,
        blob == salt + nonce + tag + ciphertext,
        open_of(derived_key(password, salt), nonce, ciphertext, tag) == Some(encode_keystore(k)),
    ensures
        unseal_record(blob, password) == Some(k),
{
    assert(frame_salt(blob) =~= salt);
    assert(frame_nonce(blob) =~= nonce);
    assert(frame_tag(blob) =~= tag);
    assert(frame_ct(blob) =~= ciphertext);
    crate::record::lemma_record_round_trip(k);
}

/// Law: the composite integrity check rejects what the cipher alone might
/// let through. An account opens only when authenticated decryption
/// succeeded, the content deserialized, and the self-signature verifies
/// over the domain message against the public key that the recovered seed
/// itself determines.
pub proof fn lemma_openable_implies_integrity(blob: Seq<u8>, password: Seq<u8>)
    requires
        account_openable(blob, password),
    ensures
        unseal_record(blob, password) matches Some(k) && k.public_key == pubkey_of(k.seed)
            && sig_valid(sign_ctx(), k.public_key, domain_msg(), k.signature),
{
}

} // verus!
