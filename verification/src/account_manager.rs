//! Orchestration of account creation, activation and listing.
//!
//! The manager composes the repository, the session and the keystore
//! routines into the public contract surface: create a named account and
//! hand back its password, address and recovery phrase exactly once;
//! activate an account by name and password; list what exists. Reading the
//! keystore directory and persisting new records happen outside the
//! library and are wired in through plain values.

use vstd::prelude::*;
use vstd::string::StrSliceExecFns;
use vstd::utf8::encode_utf8;
use crate::address::{encode_address, hex_of, lemma_hex_ascii};
use crate::keystore::{
    account_openable, activation_error_of, generate_keypair, unseal_record, ActivationError,
    CreationError,
};
use crate::mnemonic::phrase_of;
use crate::session::{SessionState, UnlockErrors};
use crate::sr25519::random_bytes;
use crate::store::{AccountStore, StoreError};

verus! {

/// What `create_account` returns to the caller, exactly once: the freshly
/// generated account password, the printable address, and the recovery
/// phrase. None of the three is retained afterwards.
pub struct Account {
    pub password: String,
    pub address: String,
    pub mnemonic: String,
}

/// The manager: the account repository, the session, and the cached index
/// of account names.
pub struct AccountManager {
    store: AccountStore,
    session: SessionState,
    accounts: Vec<String>,
}

/// The stem of a keystore file name: the account name before the keystore
/// file extension, or nothing for any other file.
pub open spec fn account_stem(s: Seq<char>) -> Option<Seq<char>> {
    if s.len() >= 8 && s.subrange(s.len() - 8, s.len() as int) == seq![
        '.',
        'a',
        'c',
        'c',
        'o',
        'u',
        'n',
        't',
    ] {
        Some(s.subrange(0, s.len() - 8))
    } else {
        None
    }
}

/// The account names among a directory's file names, in order.
pub open spec fn account_stems(names: Seq<Seq<char>>) -> Seq<Seq<char>>
    decreases names.len(),
{
    if names.len() == 0 {
        Seq::empty()
    } else {
        match account_stem(names[0]) {
            Some(stem) => seq![stem] + account_stems(names.skip(1)),
            None => account_stems(names.skip(1)),
        }
    }
}

/// One more file name extends the stems by its stem, when it has one.
proof fn lemma_stems_snoc(names: Seq<Seq<char>>, s: Seq<char>)
    ensures
        account_stems(names.push(s)) == account_stems(names) + (match account_stem(s) {
            Some(stem) => seq![stem],
            None => Seq::<Seq<char>>::empty(),
        }),
    decreases names.len(),
{
    let tail = match account_stem(s) {
        Some(stem) => seq![stem],
        None => Seq::<Seq<char>>::empty(),
    };
    if names.len() == 0 {
        assert(names.push(s)[0] == s);
        assert(names.push(s).skip(1) =~~= Seq::<Seq<char>>::empty());
        assert(account_stems(Seq::<Seq<char>>::empty()) == Seq::<Seq<char>>::empty());
        assert(account_stems(names.push(s)) =~~= tail);
        assert(account_stems(names) + tail =~~= tail);
    } else {
        lemma_stems_snoc(names.skip(1), s);
        assert(names.push(s)[0] == names[0]);
        assert(names.push(s).skip(1) =~= names.skip(1).push(s));
        match account_stem(names[0]) {
            Some(stem) => {
                assert(account_stems(names.push(s)) == seq![stem] + (account_stems(names.skip(1))
                    + tail));
                assert(seq![stem] + (account_stems(names.skip(1)) + tail) =~= (seq![stem]
                    + account_stems(names.skip(1))) + tail);
            },
            None => {},
        }
    }
}

impl AccountManager {
    /// The repository, visible to specifications.
    pub closed spec fn spec_store(&self) -> AccountStore {
        self.store
    }

    /// The session, visible to specifications.
    pub closed spec fn spec_session(&self) -> SessionState {
        self.session
    }

    /// The cached index of account names.
    pub closed spec fn accounts_view(&self) -> Seq<Seq<char>> {
        self.accounts@.map_values(|s: String| s@)
    }

    /// Whether an account of this name exists.
    pub open spec fn has_account(&self, name: Seq<char>) -> bool {
        self.spec_store().has_name(name)
    }

    /// The repository and session are well formed and the cached index
    /// mirrors the repository.
    pub open spec fn wf(&self) -> bool {
        &&& self.spec_store().wf()
        &&& self.spec_session().wf()
        &&& self.accounts_view() == self.spec_store().names_view()
    }

    /// A fresh manager: an empty repository and a locked session holding
    /// the master credential read from storage — or none on a first run.
    pub fn new(stored_master_hash: Option<String>) -> (r: AccountManager)
        ensures
            r.wf(),
            r.spec_store().names_view() == Seq::<Seq<char>>::empty(),
            !r.spec_session().is_unlocked(),
            r.spec_session().active_view() is None,
            match stored_master_hash {
                Some(h) => r.spec_session().master_view() == Some(h@),
                None => r.spec_session().master_view() is None,
            },
    {
        let r = AccountManager {
            store: AccountStore::new(),
            session: SessionState::new(stored_master_hash),
            accounts: Vec::new(),
        };
        proof {
            assert(r.accounts_view() =~= r.spec_store().names_view());
        }
        r
    }

    /// Install a record read back from storage, under its name; never
    /// overwrites an existing account.
    pub fn load_account(&mut self, name: String, blob: Vec<u8>) -> (r: Result<(), StoreError>)
        requires
            old(self).wf(),
            blob@.len() <= 0x4000_0000,
        ensures
            final(self).wf(),
            final(self).spec_session() == old(self).spec_session(),
            match r {
                Ok(()) => !old(self).has_account(name@) && final(self).spec_store().names_view()
                    == old(self).spec_store().names_view().push(name@) && final(self).spec_store().blob_of(name@) == blob@ && forall|n: Seq<char>|
                    old(self).has_account(n) ==> final(self).has_account(n) && final(self).spec_store().blob_of(n) == old(self).spec_store().blob_of(n),
                Err(e) => e == StoreError::AlreadyExists && old(self).has_account(name@) && *final(self) == *old(self),
            },
    {
        let cache_name = name.clone();
        match self.store.write(name, blob) {
            Ok(()) => {
                self.accounts.push(cache_name);
                proof {
                    assert(self.accounts_view() =~= self.spec_store().names_view());
                }
                Ok(())
            },
            Err(e) => Err(e),
        }
    }

    /// Unlock the session with the master password: the first-ever unlock
    /// installs the hashed password as the master credential, every later
    /// one verifies against it.
    pub fn unlock(&mut self, master_password: &str) -> (r: Result<(), UnlockErrors>)
        requires
            old(self).wf(),
        ensures
            final(self).wf(),
            final(self).spec_store() == old(self).spec_store(),
            final(self).spec_session().active_view() == old(self).spec_session().active_view(),
            match old(self).spec_session().master_view() {
                None => r is Ok && final(self).spec_session().is_unlocked() && (final(self).spec_session().master_view() matches Some(h) && crate::session::bcrypt_match(
                    master_password@,
                    h,
                )),
                Some(h) => {
                    &&& (r is Ok <==> crate::session::bcrypt_match(master_password@, h))
                    &&& final(self).spec_session().master_view() == old(self).spec_session().master_view()
                    &&& (r is Ok ==> final(self).spec_session().is_unlocked())
                    &&& (r is Err ==> final(self).spec_session().is_unlocked() == old(self).spec_session().is_unlocked() && r == Err::<(), UnlockErrors>(
                        UnlockErrors::InvalidPassword,
                    ))
                },
            },
    {
        self.session.unlock(master_password)
    }

    /// The master-credential hash, for persistence outside the library.
    pub fn master_hash(&self) -> (r: &Option<String>)
        ensures
            match r {
                Some(h) => self.spec_session().master_view() == Some(h@),
                None => self.spec_session().master_view() is None,
            },
    {
        self.session.master_hash()
    }

    /// Create a named account: generate a fresh keypair, recovery phrase
    /// and random account password, seal the signed record under that
    /// password with a fresh salt, and store it — failing on a duplicate
    /// name, never overwriting. The password, address and phrase are
    /// returned exactly once, and the record opens under exactly that
    /// password.
    pub fn create_account(&mut self, name: String) -> (r: Result<Account, CreationError>)
        requires
            old(self).wf(),
        ensures
            final(self).wf(),
            final(self).spec_session() == old(self).spec_session(),
            match r {
                Ok(account) => {
                    &&& !old(self).has_account(name@)
                    &&& final(self).spec_store().names_view() == old(self).spec_store().names_view().push(name@)
                    &&& final(self).has_account(name@)
                    &&& forall|n: Seq<char>|
                        old(self).has_account(n) ==> final(self).has_account(n) && final(self).spec_store().blob_of(n) == old(self).spec_store().blob_of(n)
                    &&& account_openable(
                        final(self).spec_store().blob_of(name@),
                        encode_utf8(account.password@),
                    )
                    &&& match unseal_record(
                        final(self).spec_store().blob_of(name@),
                        encode_utf8(account.password@),
                    ) {
                        Some(k) => account.address@ == hex_of(k.public_key) && account.mnemonic@
                            == phrase_of(k.seed),
                        None => false,
                    }
                    &&& account.password@.len() == 64
                    &&& vstd::utf8::is_ascii_chars(account.password@)
                    &&& encode_utf8(account.password@).len() == 64
                },
                Err(e) => {
                    &&& e == CreationError::DuplicateName
                    &&& old(self).has_account(name@)
                    &&& *final(self) == *old(self)
                },
            },
    {
        let password_bytes = random_bytes(32);
        let password = encode_address(password_bytes.as_slice());
        proof {
            lemma_hex_ascii(password_bytes@);
        }
        let cache_name = name.clone();
        match generate_keypair(&mut self.store, name, password.as_str()) {
            Ok(acct) => {
                self.accounts.push(cache_name);
                proof {
                    assert(self.accounts_view() =~= self.spec_store().names_view());
                }
                let address = encode_address(acct.address.as_slice());
                Ok(Account { password: acct.password, address, mnemonic: acct.mnemonic })
            },
            Err(e) => Err(e),
        }
    }

    /// Activate the named account with its password: the record is loaded,
    /// opened, integrity-checked and installed as the active signer. On any
    /// failure the previously active account is unchanged.
    pub fn set_active(&mut self, account_name: &String, password: &str) -> (r: Result<
        (),
        ActivationError,
    >)
        requires
            old(self).wf(),
            old(self).spec_session().is_unlocked(),
            encode_utf8(password@).len() < 0x8000_0000,
        ensures
            final(self).wf(),
            final(self).spec_store() == old(self).spec_store(),
            final(self).spec_session().is_unlocked(),
            final(self).spec_session().master_view() == old(self).spec_session().master_view(),
            match r {
                Ok(()) => {
                    &&& old(self).has_account(account_name@)
                    &&& account_openable(
                        old(self).spec_store().blob_of(account_name@),
                        encode_utf8(password@),
                    )
                    &&& final(self).spec_session().active_view() matches Some(kp) && kp.wf()
                        && match unseal_record(
                        old(self).spec_store().blob_of(account_name@),
                        encode_utf8(password@),
                    ) {
                        Some(k) => kp.public_view() == k.public_key && kp.seed_view() == k.seed,
                        None => false,
                    }
                },
                Err(e) => {
                    &&& final(self).spec_session().active_view() == old(self).spec_session().active_view()
                    &&& !(old(self).has_account(account_name@) && account_openable(
                        old(self).spec_store().blob_of(account_name@),
                        encode_utf8(password@),
                    ))
                    &&& (e == ActivationError::NotFound <==> !old(self).has_account(account_name@))
                    &&& (old(self).has_account(account_name@) ==> e == activation_error_of(
                        old(self).spec_store().blob_of(account_name@),
                        encode_utf8(password@),
                    ))
                },
            },
    {
        self.session.activate(&self.store, account_name, password)
    }

    /// Clear the active account without touching the unlock state.
    pub fn deactivate(&mut self)
        requires
            old(self).wf(),
        ensures
            final(self).wf(),
            final(self).spec_store() == old(self).spec_store(),
            final(self).spec_session().active_view() is None,
            final(self).spec_session().is_unlocked() == old(self).spec_session().is_unlocked(),
    {
        self.session.deactivate()
    }

    /// Lock the session: the active account is cleared and unlocking is
    /// required anew.
    pub fn lock(&mut self)
        requires
            old(self).wf(),
        ensures
            final(self).wf(),
            final(self).spec_store() == old(self).spec_store(),
            !final(self).spec_session().is_unlocked(),
            final(self).spec_session().active_view() is None,
            final(self).spec_session().master_view() == old(self).spec_session().master_view(),
    {
        self.session.lock()
    }

    /// Recompute the cached index from the repository.
    pub fn refresh_accounts(&mut self)
        requires
            old(self).wf(),
        ensures
            final(self).wf(),
            final(self).spec_store() == old(self).spec_store(),
            final(self).spec_session() == old(self).spec_session(),
    {
        let fresh = self.store.list();
        self.accounts = fresh;
    }

    /// All account names, reflecting every successful creation so far.
    pub fn list_accounts(&self) -> (r: Vec<String>)
        requires
            self.wf(),
        ensures
            r@.map_values(|s: String| s@) == self.spec_store().names_view(),
            r@.len() == self.spec_store().names_view().len(),
    {
        self.store.list()
    }

    /// Whether the session has been unlocked.
    pub fn is_unlocked(&self) -> (r: bool)
        ensures
            r == self.spec_session().is_unlocked(),
    {
        self.session.unlocked()
    }

    /// The address of the active account, when one is active.
    pub fn active_address(&self) -> (r: Option<String>)
        requires
            self.wf(),
        ensures
            match r {
                Some(addr) => self.spec_session().active_view() matches Some(kp) && addr@ == hex_of(
                    kp.public_view(),
                ),
                None => self.spec_session().active_view() is None,
            },
    {
        match self.session.active_public() {
            Some(pk) => Some(encode_address(pk.as_slice())),
            None => None,
        }
    }

    /// The sealed bytes stored for an account, for persistence outside the
    /// library.
    pub fn record_bytes(&self, name: &String) -> (r: Option<&Vec<u8>>)
        requires
            self.wf(),
        ensures
            match r {
                Some(b) => self.has_account(name@) && b@ == self.spec_store().blob_of(name@),
                None => !self.has_account(name@),
            },
    {
        match self.store.read(name) {
            Ok(b) => Some(b),
            Err(_) => None,
        }
    }

    /// The account names among a keystore directory's file names: the stem
    /// of every file carrying the keystore extension, in directory order.
    pub fn get_available_keypairs(file_names: &Vec<String>) -> (r: Vec<String>)
        ensures
            r@.map_values(|s: String| s@) == account_stems(
                file_names@.map_values(|s: String| s@),
            ),
    {
        let mut out: Vec<String> = Vec::new();
        let mut i: usize = 0;
        while i < file_names.len()
            invariant
                i <= file_names@.len(),
                out@.map_values(|s: String| s@) == account_stems(
                    file_names@.map_values(|s: String| s@).take(i as int),
                ),
            decreases file_names@.len() - i,
        {
            let ghost prefix = file_names@.map_values(|s: String| s@).take(i as int);
            let s = file_names[i].as_str();
            let n = s.unicode_len();
            proof {
                lemma_stems_snoc(prefix, s@);
                assert(prefix.push(s@) =~= file_names@.map_values(|t: String| t@).take(
                    i as int + 1,
                ));
            }
            if n >= 8 && s.get_char(n - 8) == '.' && s.get_char(n - 7) == 'a' && s.get_char(n - 6)
                == 'c' && s.get_char(n - 5) == 'c' && s.get_char(n - 4) == 'o' && s.get_char(n - 3)
                == 'u' && s.get_char(n - 2) == 'n' && s.get_char(n - 1) == 't' {
                proof {
                    assert(s@.subrange(s@.len() - 8, s@.len() as int) =~= seq![
                        '.',
                        'a',
                        'c',
                        'c',
                        'o',
                        'u',
                        'n',
                        't',
                    ]);
                }
                let stem = s.substring_char(0, n - 8).to_owned();
                out.push(stem);
                proof {
                    assert(out@.map_values(|t: String| t@) =~= account_stems(prefix.push(s@)));
                }
            } else {
                proof {
                    assert(account_stem(s@) is None);
                    assert(out@.map_values(|t: String| t@) =~= account_stems(prefix.push(s@)));
                }
            }
            i = i + 1;
        }
        proof {
            assert(file_names@.map_values(|s: String| s@).take(file_names@.len() as int)
                =~= file_names@.map_values(|s: String| s@));
        }
        out
    }
}

} // verus!
