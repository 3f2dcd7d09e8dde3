//! The persistent deduplication index: fingerprint → first path seen with
//! that content, kept in a key-value store.

use vstd::prelude::*;

verus! {

#[verifier::external_type_specification]
#[verifier::external_body]
pub struct ExStore(kv::Store);

#[verifier::external_type_specification]
#[verifier::external_body]
pub struct ExKvError(kv::Error);

/// What the fingerprint bucket of a store holds.
pub uninterp spec fn store_entries(s: kv::Store) -> Map<u128, Seq<char>>;

/// One check-and-insert on the index: `won` tells whether `key` was absent, in
/// which case `path` is now recorded for it; otherwise nothing changed.
pub open spec fn claim_step(
    before: Map<u128, Seq<char>>,
    key: u128,
    path: Seq<char>,
    won: bool,
    after: Map<u128, Seq<char>>,
) -> bool {
    if won {
        !before.contains_key(key) && after == before.insert(key, path)
    } else {
        before.contains_key(key) && after == before
    }
}

/// Relies on `kv::Config::new` and `kv::Store::new`: opens (or creates) the
/// store at `path`.
#[verifier::external_body]
fn open_store(path: &str) -> (r: Result<kv::Store, kv::Error>) {
    kv::Store::new(kv::Config::new(path))
}

/// Relies on `kv::Bucket::compare_and_swap` with no expected value: it stores
/// `path` under `key` only when the key is absent, as one atomic step, and
/// fails with `Error::CompareAndSwap` when the key is present, storing nothing.
#[verifier::external_body]
fn store_claim(store: &mut kv::Store, key: u128, path: &String) -> (r: Result<bool, kv::Error>)
    ensures
        r matches Ok(won) ==> claim_step(
            store_entries(*old(store)),
            key,
            path@,
            won,
            store_entries(*final(store)),
        ),
{
    let bucket = store.bucket::<kv::Integer, String>(Some("md5s_db"))?;
    match bucket.compare_and_swap(&kv::Integer::from(key), None, Some(path)) {
        Ok(()) => Ok(true),
        Err(kv::Error::CompareAndSwap(_)) => Ok(false),
        Err(e) => Err(e),
    }
}

/// Why an index operation failed.
#[derive(Debug, Clone, Copy, PartialEq, Eq, Structural)]
pub enum IndexError {
    /// The store could not be opened.
    Open,
    /// The store could not be read or updated.
    Update,
}

/// Whether a check-and-insert recorded new content.
#[derive(Debug, Clone, Copy, PartialEq, Eq, Structural)]
pub enum Claim {
    /// The fingerprint was absent and is now recorded.
    Inserted,
    /// The fingerprint was already recorded; nothing changed.
    AlreadyPresent,
}

impl Claim {
    pub open spec fn won(self) -> bool {
        self == Claim::Inserted
    }
}

/// The fingerprint index of one run.
pub struct DedupIndex {
    store: kv::Store,
}

impl DedupIndex {
    /// The fingerprint → path entries the index holds.
    pub closed spec fn entries(&self) -> Map<u128, Seq<char>> {
        store_entries(self.store)
    }

    /// Opens the index stored at `path`; what it already holds is whatever
    /// earlier runs recorded there.
    pub fn open(path: &str) -> (r: Result<DedupIndex, IndexError>) {
        match open_store(path) {
            Ok(store) => Ok(DedupIndex { store }),
            Err(_) => Err(IndexError::Open),
        }
    }

    /// Records `path` for `key` unless `key` is already present, as one
    /// atomic step.
    pub fn insert_if_absent(&mut self, key: u128, path: &String) -> (r: Result<Claim, IndexError>)
        ensures
            r matches Ok(c) ==> claim_step(old(self).entries(), key, path@, c.won(), final(self).entries()),
    {
        match store_claim(&mut self.store, key, path) {
            Ok(true) => Ok(Claim::Inserted),
            Ok(false) => Ok(Claim::AlreadyPresent),
            Err(_) => Err(IndexError::Update),
        }
    }
}

} // verus!
