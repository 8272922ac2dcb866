//! A local, password-protected credential vault for signing-key material.
//!
//! The library covers the keystore and account-session core: password-based
//! key derivation, authenticated encryption of account records, keypair
//! generation with a recovery phrase, the integrity check that detects a
//! wrong unlock password, and the session that tracks the active account.
//! Reading and writing the records on disk, and the ledger client that the
//! active signer is handed to, live outside the library.

pub mod account_manager;
pub mod address;
pub mod cipher;
pub mod file_manager;
pub mod kdf;
pub mod keystore;
pub mod mnemonic;
pub mod record;
pub mod session;
pub mod sr25519;
pub mod store;
