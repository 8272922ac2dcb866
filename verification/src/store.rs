//! The account repository.
//!
//! Encrypted records are kept by account name; names are unique identifiers
//! and a name is never silently overwritten. The repository is the
//! in-memory image of the keystore directory: loading the directory and
//! flushing new records to disk happen outside the library.

use vstd::prelude::*;

verus! {

/// Errors of the account repository.
#[derive(Debug, Clone, Copy, PartialEq, Eq, Structural)]
pub enum StoreError {
    AlreadyExists,
    NotFound,
}

/// The repository of encrypted account records, keyed by unique name.
pub struct AccountStore {
    names: Vec<String>,
    blobs: Vec<Vec<u8>>,
}

impl AccountStore {
    /// The stored names, in insertion order.
    pub closed spec fn names_view(&self) -> Seq<Seq<char>> {
        self.names@.map_values(|s: String| s@)
    }

    /// The stored encrypted records, in insertion order.
    pub closed spec fn blobs_view(&self) -> Seq<Seq<u8>> {
        self.blobs@.map_values(|v: Vec<u8>| v@)
    }

    /// Whether a record is stored under this name.
    pub open spec fn has_name(&self, name: Seq<char>) -> bool {
        self.names_view().contains(name)
    }

    /// The position of a stored name.
    pub closed spec fn name_index(&self, name: Seq<char>) -> int {
        choose|i: int| 0 <= i < self.names_view().len() && self.names_view()[i] == name
    }

    /// The encrypted record stored under a name.
    pub open spec fn blob_of(&self, name: Seq<char>) -> Seq<u8> {
        self.blobs_view()[self.name_index(name)]
    }

    /// Names are unique, each has exactly one record, and every record is
    /// within the size the cipher layer accepts.
    pub open spec fn wf(&self) -> bool {
        &&& self.names_view().len() == self.blobs_view().len()
        &&& forall|i: int, j: int|
            0 <= i < j < self.names_view().len() ==> self.names_view()[i] != self.names_view()[j]
        &&& forall|i: int|
            0 <= i < self.blobs_view().len() ==> #[trigger] self.blobs_view()[i].len()
                <= 0x4000_0000
    }

    /// A stored name's record is within the size the cipher layer accepts.
    pub proof fn lemma_blob_len(&self, name: Seq<char>)
        requires
            self.wf(),
            self.has_name(name),
        ensures
            self.blob_of(name).len() <= 0x4000_0000,
    {
        let i = self.name_index(name);
        assert(0 <= i < self.names_view().len() && self.names_view()[i] == name);
    }

    /// With unique names, the position of a stored name is the only one
    /// holding it.
    proof fn lemma_name_index_unique(&self, name: Seq<char>, i: int)
        requires
            self.wf(),
            0 <= i < self.names_view().len(),
            self.names_view()[i] == name,
        ensures
            self.name_index(name) == i,
    {
        let j = self.name_index(name);
        assert(self.names_view().contains(name));
        assert(0 <= j < self.names_view().len() && self.names_view()[j] == name);
        if i < j {
            assert(self.names_view()[i] != self.names_view()[j]);
        } else if j < i {
            assert(self.names_view()[j] != self.names_view()[i]);
        }
    }

    /// An empty repository.
    pub fn new() -> (r: AccountStore)
        ensures
            r.wf(),
            r.names_view() == Seq::<Seq<char>>::empty(),
            forall|n: Seq<char>| !r.has_name(n),
    {
        let r = AccountStore { names: Vec::new(), blobs: Vec::new() };
        proof {
            assert(r.names_view() =~= Seq::<Seq<char>>::empty());
        }
        r
    }

    /// The number of stored records.
    pub fn len(&self) -> (r: usize)
        ensures
            r == self.names_view().len(),
    {
        self.names.len()
    }

    /// The position of a name, when it is stored.
    fn find(&self, name: &String) -> (r: Option<usize>)
        requires
            self.wf(),
        ensures
            match r {
                Some(i) => i < self.names_view().len() && self.names_view()[i as int] == name@
                    && self.name_index(name@) == i && self.has_name(name@),
                None => !self.has_name(name@),
            },
    {
        let mut i: usize = 0;
        while i < self.names.len()
            invariant
                self.wf(),
                i <= self.names_view().len(),
                forall|j: int| 0 <= j < i ==> self.names_view()[j] != name@,
            decreases self.names_view().len() - i,
        {
            if self.names[i] == *name {
                proof {
                    self.lemma_name_index_unique(name@, i as int);
                }
                return Some(i);
            }
            i = i + 1;
        }
        proof {
            assert(forall|j: int|
                0 <= j < self.names_view().len() ==> self.names_view()[j] != name@);
        }
        None
    }

    /// Store a record under a name that is not yet taken; never overwrite.
    pub fn write(&mut self, name: String, blob: Vec<u8>) -> (r: Result<(), StoreError>)
        requires
            old(self).wf(),
            blob@.len() <= 0x4000_0000,
        ensures
            final(self).wf(),
            match r {
                Ok(()) => !old(self).has_name(name@)
                    && final(self).names_view() == old(self).names_view().push(name@)
                    && final(self).has_name(name@) && final(self).blob_of(name@) == blob@
                    && forall|n: Seq<char>|
                        old(self).has_name(n) ==> final(self).has_name(n) && final(self).blob_of(n)
                            == old(self).blob_of(n),
                Err(e) => e == StoreError::AlreadyExists && old(self).has_name(name@)
                    && *final(self) == *old(self),
            },
    {
        if self.find(&name).is_some() {
            return Err(StoreError::AlreadyExists);
        }
        let ghost old_self = *self;
        self.names.push(name);
        self.blobs.push(blob);
        proof {
            assert(self.names_view() =~= old_self.names_view().push(self.names@.last()@));
            assert(self.blobs_view() =~= old_self.blobs_view().push(self.blobs@.last()@));
            let ghost nm = self.names_view().last();
            assert(self.names_view()[self.names_view().len() - 1] == nm);
            self.lemma_name_index_unique(nm, self.names_view().len() - 1);
            assert forall|n: Seq<char>| old_self.has_name(n) implies self.has_name(n)
                && self.blob_of(n) == old_self.blob_of(n) by {
                let i = old_self.name_index(n);
                assert(0 <= i < old_self.names_view().len() && old_self.names_view()[i] == n);
                assert(self.names_view()[i] == n);
                self.lemma_name_index_unique(n, i);
            }
        }
        Ok(())
    }

    /// Fetch the record stored under a name.
    pub fn read(&self, name: &String) -> (r: Result<&Vec<u8>, StoreError>)
        requires
            self.wf(),
        ensures
            match r {
                Ok(blob) => self.has_name(name@) && blob@ == self.blob_of(name@),
                Err(e) => e == StoreError::NotFound && !self.has_name(name@),
            },
    {
        match self.find(name) {
            Some(i) => Ok(&self.blobs[i]),
            None => Err(StoreError::NotFound),
        }
    }

    /// All stored names, in insertion order.
    pub fn list(&self) -> (r: Vec<String>)
        requires
            self.wf(),
        ensures
            r@.map_values(|s: String| s@) == self.names_view(),
            r@.len() == self.names_view().len(),
    {
        let mut out: Vec<String> = Vec::new();
        let mut i: usize = 0;
        while i < self.names.len()
            invariant
                i <= self.names@.len(),
                out@.len() == i,
                forall|j: int| 0 <= j < i ==> out@.map_values(|s: String| s@)[j]
                    == self.names_view()[j],
            decreases self.names@.len() - i,
        {
            out.push(self.names[i].clone());
            i = i + 1;
        }
        proof {
            assert(out@.map_values(|s: String| s@) =~= self.names_view());
        }
        out
    }
}

/// Law: a record just stored under a name is found under that name, so a
/// second attempt to create the same name meets the already-exists
/// rejection rather than silently overwriting.
pub proof fn lemma_name_uniqueness(s0: AccountStore, s1: AccountStore, name: Seq<char>)
    requires
        s1.names_view() == s0.names_view().push(name),
    ensures
        s1.has_name(name),
{
    assert(s1.names_view()[s1.names_view().len() - 1] == name);
}

/// Law: enumeration is consistent. A well-formed repository lists each
/// stored name exactly once: the listing's length counts the accounts, it
/// holds no duplicates, and a name is stored exactly when the listing
/// contains it.
pub proof fn lemma_enumeration_exact(s: AccountStore, created: Seq<Seq<char>>)
    requires
        s.wf(),
        s.names_view() == created,
    ensures
        s.names_view().len() == created.len(),
        forall|n: Seq<char>| s.has_name(n) <==> created.contains(n),
        created.no_duplicates(),
{
    assert forall|i: int, j: int| 0 <= i < created.len() && 0 <= j < created.len() && i != j
        implies created[i] != created[j] by {
        if i < j {
            assert(s.names_view()[i] != s.names_view()[j]);
        } else {
            assert(s.names_view()[j] != s.names_view()[i]);
        }
    }
}

} // verus!
