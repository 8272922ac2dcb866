use frostbyte::account_manager::AccountManager;
use frostbyte::keystore::{generate_keypair, signing_context, ActivationError, CreationError};
use frostbyte::mnemonic::parse_phrase;
use frostbyte::session::{SessionState, UnlockErrors};
use frostbyte::sr25519::{verify_signature, KeyPair};
use frostbyte::store::AccountStore;

fn unlocked_manager() -> AccountManager {
    let mut manager = AccountManager::new(None);
    manager.unlock("master password").expect("first unlock installs the credential");
    manager
}

#[test]
fn created_account_activates_with_returned_password() {
    let mut manager = unlocked_manager();
    let account = manager.create_account(String::from("alice")).expect("fresh name");
    assert_eq!(account.password.len(), 64);
    assert_eq!(account.address.len(), 64);
    assert_eq!(account.mnemonic.split(' ').count(), 32);

    manager
        .set_active(&String::from("alice"), &account.password)
        .expect("the returned password opens the record");
    assert_eq!(manager.active_address().expect("active"), account.address);
}

#[test]
fn wrong_password_leaves_active_account_unchanged() {
    let mut manager = unlocked_manager();
    let account = manager.create_account(String::from("alice")).expect("fresh name");
    manager.set_active(&String::from("alice"), &account.password).expect("activates");

    let r = manager.set_active(&String::from("alice"), "wrong-password");
    assert!(matches!(r, Err(ActivationError::WrongPassword)));
    assert_eq!(manager.active_address().expect("still active"), account.address);
}

#[test]
fn duplicate_name_is_rejected_not_overwritten() {
    let mut manager = unlocked_manager();
    let first = manager.create_account(String::from("x")).expect("fresh name");
    let r = manager.create_account(String::from("x"));
    assert!(matches!(r, Err(CreationError::DuplicateName)));
    let names = manager.list_accounts();
    assert_eq!(names, vec!["x"]);
    manager
        .set_active(&String::from("x"), &first.password)
        .expect("the first record is still the stored one");
}

#[test]
fn listing_reflects_every_creation() {
    let mut manager = unlocked_manager();
    assert!(manager.list_accounts().is_empty());
    for name in ["a1", "a2", "a3", "a4"] {
        manager.create_account(String::from(name)).expect("fresh name");
    }
    let names = manager.list_accounts();
    assert_eq!(names, vec!["a1", "a2", "a3", "a4"]);
    manager.refresh_accounts();
    assert_eq!(manager.list_accounts(), vec!["a1", "a2", "a3", "a4"]);
}

#[test]
fn activation_switches_between_accounts() {
    let mut manager = unlocked_manager();
    let a = manager.create_account(String::from("a")).expect("fresh name");
    let b = manager.create_account(String::from("b")).expect("fresh name");

    manager.set_active(&String::from("a"), &a.password).expect("activates");
    assert_eq!(manager.active_address().expect("active"), a.address);

    manager.set_active(&String::from("b"), &b.password).expect("activates");
    assert_eq!(manager.active_address().expect("active"), b.address);

    let r = manager.set_active(&String::from("a"), "not the password");
    assert!(r.is_err());
    assert_eq!(manager.active_address().expect("unchanged"), b.address);
}

#[test]
fn unknown_account_is_not_found() {
    let mut manager = unlocked_manager();
    let r = manager.set_active(&String::from("nobody"), "pw");
    assert!(matches!(r, Err(ActivationError::NotFound)));
    assert!(manager.active_address().is_none());
}

#[test]
fn corrupt_record_is_distinguished_from_wrong_password() {
    let mut manager = unlocked_manager();
    manager.load_account(String::from("tiny"), vec![1, 2, 3]).expect("loads");
    let r = manager.set_active(&String::from("tiny"), "pw");
    assert!(matches!(r, Err(ActivationError::CorruptRecord)));

    manager.load_account(String::from("garbage"), vec![0; 60]).expect("loads");
    let r = manager.set_active(&String::from("garbage"), "pw");
    assert!(matches!(r, Err(ActivationError::WrongPassword)));
}

#[test]
fn tampered_record_never_activates() {
    let mut manager = unlocked_manager();
    let account = manager.create_account(String::from("a")).expect("fresh name");
    let mut blob = manager.record_bytes(&String::from("a")).expect("stored").clone();
    let last = blob.len() - 1;
    blob[last] ^= 1;
    manager.load_account(String::from("b"), blob).expect("loads");
    let r = manager.set_active(&String::from("b"), &account.password);
    assert!(matches!(r, Err(ActivationError::WrongPassword)));
    assert!(manager.active_address().is_none());
}

#[test]
fn deactivate_clears_the_active_account() {
    let mut manager = unlocked_manager();
    let a = manager.create_account(String::from("a")).expect("fresh name");
    manager.set_active(&String::from("a"), &a.password).expect("activates");
    assert!(manager.active_address().is_some());
    manager.deactivate();
    assert!(manager.active_address().is_none());
    assert!(manager.is_unlocked());
}

#[test]
fn master_credential_gates_later_unlocks() {
    let mut first_run = AccountManager::new(None);
    assert!(!first_run.is_unlocked());
    first_run.unlock("master password").expect("first unlock installs the credential");
    assert!(first_run.is_unlocked());
    let stored = first_run.master_hash().clone().expect("credential installed");
    assert_ne!(stored, "master password");
    assert!(stored.starts_with("$2"));

    let mut second_run = AccountManager::new(Some(stored));
    let r = second_run.unlock("not the master password");
    assert!(matches!(r, Err(UnlockErrors::InvalidPassword)));
    assert!(!second_run.is_unlocked());
    second_run.unlock("master password").expect("the master password unlocks");
    assert!(second_run.is_unlocked());
}

#[test]
fn lock_requires_unlocking_again() {
    let mut manager = unlocked_manager();
    let a = manager.create_account(String::from("a")).expect("fresh name");
    manager.set_active(&String::from("a"), &a.password).expect("activates");
    manager.lock();
    assert!(!manager.is_unlocked());
    assert!(manager.active_address().is_none());
    manager.unlock("master password").expect("same master password");
    assert!(manager.is_unlocked());
}

#[test]
fn keystore_files_map_to_account_names() {
    let files = vec![
        String::from("alice.account"),
        String::from("notes.txt"),
        String::from("bob.account"),
        String::from("account"),
        String::from(".account"),
    ];
    let names = AccountManager::get_available_keypairs(&files);
    assert_eq!(names, vec!["alice", "bob", ""]);
}

#[test]
fn active_signer_signs_verifiable_messages() {
    let mut store = AccountStore::new();
    let account =
        generate_keypair(&mut store, String::from("signer"), "account password").expect("fresh");

    let mut session = SessionState::new(None);
    session.unlock("master").expect("first unlock");
    session.activate(&store, &String::from("signer"), &account.password).expect("activates");

    let ctx = signing_context();
    let message = b"a transaction to submit";
    let signature = session.sign_with_active(&ctx, message).expect("a signer is active");
    let public_key = session.active_public().expect("a signer is active").clone();
    assert!(verify_signature(&ctx, &public_key, message, &signature));
    assert!(!verify_signature(&ctx, &public_key, b"another message", &signature));
}

#[test]
fn recovery_phrase_regenerates_the_account_key() {
    let mut manager = unlocked_manager();
    let account = manager.create_account(String::from("alice")).expect("fresh name");
    let seed = parse_phrase(&account.mnemonic).expect("the returned phrase parses");
    let recovered = KeyPair::from_seed(seed);
    assert_eq!(frostbyte::address::encode_address(recovered.public()), account.address);
}
