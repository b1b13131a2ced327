//! Key-to-bytes blob stores with configurable write atomicity.

use vstd::prelude::*;

use crate::assoc::{
    assoc_delete, assoc_map, assoc_set, find_key, has_key, keys_distinct, lemma_assoc_congruent,
    lemma_assoc_dom, lemma_assoc_value,
};
use crate::errors::{Error, ExternalError};
use crate::lock::{reentrant_for, spec_serialized, LockInfo};
use crate::util::clone_bytes;

verus! {

/// Configuration of whether a write to a blob must occur atomically.
#[derive(Debug)]
pub enum Atomicity {
    /// Require the write to be atomic: it either fully replaces the previous
    /// value or, if interrupted, leaves it fully intact; no partial value may
    /// ever be read back.
    RequireAtomic,
    /// Allow the write to leave partially written data if interrupted. This
    /// is a performance concession for backends whose atomic writes are
    /// expensive, acceptable for keys that are written once and never
    /// modified; backends that are naturally atomic (such as the in-memory
    /// one) ignore it.
    AllowNonAtomic,
}

/// The abstract state of a blob location.
pub ghost struct BlobState {
    /// The key-to-bytes mapping currently stored.
    pub contents: Map<Seq<char>, Seq<u8>>,
    /// The lock contents recorded at the location, if any.
    pub lock: Option<Seq<char>>,
    /// Whether the handle is open.
    pub open: bool,
}

/// The state after storing `value` at `key`; the same whichever
/// [`Atomicity`] the caller chose.
pub open spec fn blob_set(st: BlobState, key: Seq<char>, value: Seq<u8>) -> BlobState {
    BlobState { contents: st.contents.insert(key, value), ..st }
}

/// The state after deleting `key`; the same whether or not the key was
/// present.
pub open spec fn blob_delete(st: BlobState, key: Seq<char>) -> BlobState {
    BlobState { contents: st.contents.remove(key), ..st }
}

/// The state after closing, releasing the lock, and whether the call
/// transitioned the handle from open to closed.
pub open spec fn blob_close(st: BlobState) -> (BlobState, bool) {
    (BlobState { lock: None, open: false, ..st }, st.open)
}

/// Whether `keys` lists every key of `dom` exactly once.
pub open spec fn is_key_list(keys: Seq<Seq<char>>, dom: Set<Seq<char>>) -> bool {
    &&& forall|i: int| 0 <= i < keys.len() ==> dom.contains(#[trigger] keys[i])
    &&& forall|k: Seq<char>| #[trigger] dom.contains(k) ==> exists|i: int|
        0 <= i < keys.len() && keys[i] == k
    &&& forall|i: int, j: int| 0 <= i < j < keys.len() ==> #[trigger] keys[i] != #[trigger] keys[j]
}

/// An abstraction over read-only access to a key-to-bytes store.
pub trait BlobRead: Sized {
    /// The implementation's internal invariant.
    spec fn inv(&self) -> bool;

    /// The abstract state of the handle.
    spec fn state(&self) -> BlobState;

    /// Returns the value stored at `key`, or `None` if the key is absent;
    /// never a partial value. Fails if and only if the handle is closed.
    fn get(&self, key: &str) -> (r: Result<Option<Vec<u8>>, Error>)
        requires
            self.inv(),
        ensures
            match r {
                Ok(Some(v)) => self.state().open && self.state().contents.dom().contains(key@)
                    && v@ == self.state().contents[key@],
                Ok(None) => self.state().open && !self.state().contents.dom().contains(key@),
                Err(_) => !self.state().open,
            },
    ;

    /// Lists every currently present key, each exactly once, consistent with
    /// concurrent `get`s. Fails if and only if the handle is closed.
    fn list_keys(&self) -> (r: Result<Vec<String>, Error>)
        requires
            self.inv(),
        ensures
            match r {
                Ok(keys) => self.state().open && is_key_list(
                    keys.deep_view(),
                    self.state().contents.dom(),
                ),
                Err(_) => !self.state().open,
            },
    ;

    /// Closes the handle, releasing the exclusive-writer lock if this handle
    /// holds one, and causing every future operation to fail. Idempotent and
    /// never an error: returns whether this call transitioned the handle from
    /// open to closed.
    fn close(&mut self) -> (r: Result<bool, Error>)
        requires
            old(self).inv(),
        ensures
            final(self).inv(),
            final(self).state() == blob_close(old(self).state()).0,
            r == Ok::<bool, Error>(blob_close(old(self).state()).1),
    ;
}

/// An abstraction over exclusive read-write access to a key-to-bytes store.
pub trait Blob: BlobRead {
    /// The corresponding read-only handle type.
    type Read: BlobRead;

    /// Opens the location for exclusive write access, recording the given
    /// lock token. Succeeds if and only if no lock is recorded or the
    /// recorded lock is reentrance-compatible with `lock_info`; on failure
    /// the error names the location and the blob is unchanged.
    fn open_exclusive(&mut self, lock_info: &LockInfo) -> (r: Result<(), Error>)
        requires
            old(self).inv(),
        ensures
            final(self).inv(),
            r is Ok <==> match old(self).state().lock {
                None => true,
                Some(c) => reentrant_for(lock_info@.reentrance_id, c),
            },
            r is Ok ==> final(self).state() == (BlobState {
                lock: Some(spec_serialized(lock_info@)),
                open: true,
                ..old(self).state()
            }),
            r is Err ==> final(self).state() == old(self).state(),
    ;

    /// Opens a read-only handle onto the location's current contents. Always
    /// succeeds, whether or not an exclusive lock is held: readers are never
    /// blocked by writers.
    fn open_read(&self) -> (r: Result<Self::Read, Error>)
        requires
            self.inv(),
        ensures
            match r {
                Ok(h) => h.inv() && h.state() == (BlobState {
                    contents: self.state().contents,
                    lock: None,
                    open: true,
                }),
                Err(_) => false,
            },
    ;

    /// Stores `value` at `key`, replacing any previous value. Under
    /// `RequireAtomic` the write either fully replaces the previous value or
    /// leaves it intact; the in-memory backend is naturally atomic either
    /// way, so the outcome does not depend on the mode. Fails if and only if
    /// the handle is closed, leaving it unchanged.
    fn set(&mut self, key: &str, value: Vec<u8>, atomic: Atomicity) -> (r: Result<(), Error>)
        requires
            old(self).inv(),
        ensures
            final(self).inv(),
            old(self).state().open ==> r == Ok::<(), Error>(()) && final(self).state() == blob_set(
                old(self).state(),
                key@,
                value@,
            ),
            !old(self).state().open ==> r is Err && final(self).state() == old(self).state(),
    ;

    /// Removes `key`; succeeds whether or not the key exists. Fails if and
    /// only if the handle is closed, leaving it unchanged.
    fn delete(&mut self, key: &str) -> (r: Result<(), Error>)
        requires
            old(self).inv(),
        ensures
            final(self).inv(),
            old(self).state().open ==> r == Ok::<(), Error>(()) && final(self).state()
                == blob_delete(old(self).state(), key@),
            !old(self).state().open ==> r is Err && final(self).state() == old(self).state(),
    ;
}

/// Returns a copy of the value stored at `key`, if any.
fn entries_get(entries: &Vec<(String, Vec<u8>)>, key: &str) -> (r: Option<Vec<u8>>)
    requires
        keys_distinct(entries@),
    ensures
        match r {
            Some(v) => assoc_map(entries@).dom().contains(key@) && v@ == assoc_map(entries@)[key@],
            None => !assoc_map(entries@).dom().contains(key@),
        },
{
    proof {
        lemma_assoc_dom::<Vec<u8>>(entries@);
    }
    match find_key(entries, key) {
        Some(i) => {
            proof {
                lemma_assoc_value(entries@, i as int);
            }
            Some(clone_bytes(&entries[i].1))
        },
        None => None,
    }
}

/// Lists the keys of the entries, in storage order.
fn entries_key_list(entries: &Vec<(String, Vec<u8>)>) -> (r: Vec<String>)
    requires
        keys_distinct(entries@),
    ensures
        is_key_list(r.deep_view(), assoc_map(entries@).dom()),
{
    let mut keys: Vec<String> = Vec::new();
    let mut i: usize = 0;
    while i < entries.len()
        invariant
            i <= entries@.len(),
            keys@.len() == i,
            forall|j: int| 0 <= j < i ==> (#[trigger] keys@[j])@ == entries@[j].0@,
        decreases entries@.len() - i,
    {
        keys.push(entries[i].0.clone());
        i = i + 1;
    }
    proof {
        lemma_assoc_dom::<Vec<u8>>(entries@);
        let dom = assoc_map(entries@).dom();
        assert forall|j: int| 0 <= j < keys.deep_view().len() implies dom.contains(
            #[trigger] keys.deep_view()[j],
        ) by {
            assert(keys.deep_view()[j] == entries@[j].0@);
            assert(has_key(entries@, entries@[j].0@));
        }
        assert forall|k: Seq<char>| #[trigger] dom.contains(k) implies exists|i: int|
            0 <= i < keys.deep_view().len() && keys.deep_view()[i] == k by {
            assert(has_key(entries@, k));
            let j = choose|j: int| 0 <= j < entries@.len() && (#[trigger] entries@[j]).0@ == k;
            assert(keys.deep_view()[j] == k);
        }
        assert forall|x: int, y: int| 0 <= x < y < keys.deep_view().len() implies #[trigger] keys
            .deep_view()[x] != #[trigger] keys.deep_view()[y] by {
            assert(entries@[x].0@ != entries@[y].0@);
        }
    }
    keys
}

/// Returns a copy of the entries.
fn entries_clone(entries: &Vec<(String, Vec<u8>)>) -> (r: Vec<(String, Vec<u8>)>)
    requires
        keys_distinct(entries@),
    ensures
        keys_distinct(r@),
        assoc_map(r@) == assoc_map(entries@),
{
    let mut r: Vec<(String, Vec<u8>)> = Vec::new();
    let mut i: usize = 0;
    while i < entries.len()
        invariant
            i <= entries@.len(),
            r@.len() == i,
            forall|j: int|
                0 <= j < i ==> (#[trigger] r@[j]).0@ == entries@[j].0@ && r@[j].1@
                    == entries@[j].1@,
        decreases entries@.len() - i,
    {
        let k = entries[i].0.clone();
        let v = clone_bytes(&entries[i].1);
        r.push((k, v));
        i = i + 1;
    }
    proof {
        assert forall|x: int, y: int|
            0 <= x < y < r@.len() implies (#[trigger] r@[x]).0@ != (#[trigger] r@[y]).0@ by {
            assert(entries@[x].0@ != entries@[y].0@);
        }
        lemma_assoc_congruent(r@, entries@);
    }
    r
}

/// An in-memory blob location opened for exclusive read-write access.
///
/// The value owns the whole location: the stored entries, the recorded lock,
/// and whether the writer currently has it open. A process opens it with
/// [`Blob::open_exclusive`] before writing and may reopen it after a close,
/// or after a crash that left the lock recorded, under the reentrance rules
/// of [`LockInfo`].
pub struct MemBlob {
    path: String,
    entries: Vec<(String, Vec<u8>)>,
    lock: Option<String>,
    open: bool,
}

/// An in-memory read-only blob handle holding a point-in-time copy of a
/// location's contents.
pub struct MemBlobRead {
    entries: Vec<(String, Vec<u8>)>,
    open: bool,
}

impl BlobRead for MemBlob {
    closed spec fn inv(&self) -> bool {
        keys_distinct(self.entries@)
    }

    closed spec fn state(&self) -> BlobState {
        BlobState {
            contents: assoc_map(self.entries@),
            lock: match self.lock {
                Some(s) => Some(s@),
                None => None,
            },
            open: self.open,
        }
    }

    fn get(&self, key: &str) -> (r: Result<Option<Vec<u8>>, Error>) {
        if !self.open {
            return Err(Error::new("blob unexpectedly closed"));
        }
        Ok(entries_get(&self.entries, key))
    }

    fn list_keys(&self) -> (r: Result<Vec<String>, Error>) {
        if !self.open {
            return Err(Error::new("blob unexpectedly closed"));
        }
        Ok(entries_key_list(&self.entries))
    }

    fn close(&mut self) -> (r: Result<bool, Error>) {
        let was_open = self.open;
        self.open = false;
        self.lock = None;
        Ok(was_open)
    }
}

impl Blob for MemBlob {
    type Read = MemBlobRead;

    fn open_exclusive(&mut self, lock_info: &LockInfo) -> (r: Result<(), Error>) {
        match &self.lock {
            None => {},
            Some(existing) => {
                match lock_info.check_reentrant_for(self.path.as_str(), existing.as_str()) {
                    Ok(()) => {},
                    Err(e) => {
                        return Err(e);
                    },
                }
            },
        }
        self.lock = Some(lock_info.serialize());
        self.open = true;
        Ok(())
    }

    fn open_read(&self) -> (r: Result<MemBlobRead, Error>) {
        Ok(MemBlobRead { entries: entries_clone(&self.entries), open: true })
    }

    fn set(&mut self, key: &str, value: Vec<u8>, atomic: Atomicity) -> (r: Result<(), Error>) {
        if !self.open {
            return Err(Error::new("blob unexpectedly closed"));
        }
        assoc_set(&mut self.entries, key, value);
        Ok(())
    }

    fn delete(&mut self, key: &str) -> (r: Result<(), Error>) {
        if !self.open {
            return Err(Error::new("blob unexpectedly closed"));
        }
        assoc_delete(&mut self.entries, key);
        Ok(())
    }
}

impl MemBlob {
    /// Returns a fresh, closed, unlocked blob location named `path`.
    pub fn new(path: String) -> (r: MemBlob)
        ensures
            r.inv(),
            r.state() == (BlobState {
                contents: Map::<Seq<char>, Seq<u8>>::empty(),
                lock: None,
                open: false,
            }),
    {
        MemBlob { path, entries: Vec::new(), lock: None, open: false }
    }
}

impl BlobRead for MemBlobRead {
    closed spec fn inv(&self) -> bool {
        keys_distinct(self.entries@)
    }

    closed spec fn state(&self) -> BlobState {
        BlobState { contents: assoc_map(self.entries@), lock: None, open: self.open }
    }

    fn get(&self, key: &str) -> (r: Result<Option<Vec<u8>>, Error>) {
        if !self.open {
            return Err(Error::new("blob unexpectedly closed"));
        }
        Ok(entries_get(&self.entries, key))
    }

    fn list_keys(&self) -> (r: Result<Vec<String>, Error>) {
        if !self.open {
            return Err(Error::new("blob unexpectedly closed"));
        }
        Ok(entries_key_list(&self.entries))
    }

    fn close(&mut self) -> (r: Result<bool, Error>) {
        let was_open = self.open;
        self.open = false;
        Ok(was_open)
    }
}

/// An abstraction over a key-to-bytes store that many processes may hold
/// open at once, with no exclusivity and a deadline on every call.
///
/// Implementations are linearizable: every operation appears to take effect
/// atomically between its invocation and its response.
pub trait BlobMulti: Sized {
    /// The implementation's internal invariant.
    spec fn inv(&self) -> bool;

    /// The key-to-bytes mapping currently stored.
    spec fn contents(&self) -> Map<Seq<char>, Seq<u8>>;

    /// Returns the value stored at `key`, or `None` if the key is absent,
    /// completing or failing by `deadline`; never a partial value.
    fn get(&self, deadline: u64, key: &str) -> (r: Result<Option<Vec<u8>>, ExternalError>)
        requires
            self.inv(),
        ensures
            match r {
                Ok(Some(v)) => self.contents().dom().contains(key@) && v@
                    == self.contents()[key@],
                Ok(None) => !self.contents().dom().contains(key@),
                Err(_) => false,
            },
    ;

    /// Lists every currently present key, each exactly once, completing or
    /// failing by `deadline`.
    fn list_keys(&self, deadline: u64) -> (r: Result<Vec<String>, ExternalError>)
        requires
            self.inv(),
        ensures
            match r {
                Ok(keys) => is_key_list(keys.deep_view(), self.contents().dom()),
                Err(_) => false,
            },
    ;

    /// Stores `value` at `key`, replacing any previous value, completing or
    /// failing by `deadline`; the outcome does not depend on the atomicity
    /// mode.
    fn set(&mut self, deadline: u64, key: &str, value: Vec<u8>, atomic: Atomicity) -> (r: Result<
        (),
        ExternalError,
    >)
        requires
            old(self).inv(),
        ensures
            final(self).inv(),
            r is Ok,
            final(self).contents() == old(self).contents().insert(key@, value@),
    ;

    /// Removes `key`, completing or failing by `deadline`; succeeds whether
    /// or not the key exists.
    fn delete(&mut self, deadline: u64, key: &str) -> (r: Result<(), ExternalError>)
        requires
            old(self).inv(),
        ensures
            final(self).inv(),
            r is Ok,
            final(self).contents() == old(self).contents().remove(key@),
    ;
}

/// An in-memory [`BlobMulti`] location, naturally atomic and never late for
/// a deadline.
pub struct MemBlobMulti {
    entries: Vec<(String, Vec<u8>)>,
}

impl BlobMulti for MemBlobMulti {
    closed spec fn inv(&self) -> bool {
        keys_distinct(self.entries@)
    }

    closed spec fn contents(&self) -> Map<Seq<char>, Seq<u8>> {
        assoc_map(self.entries@)
    }

    fn get(&self, deadline: u64, key: &str) -> (r: Result<Option<Vec<u8>>, ExternalError>) {
        Ok(entries_get(&self.entries, key))
    }

    fn list_keys(&self, deadline: u64) -> (r: Result<Vec<String>, ExternalError>) {
        Ok(entries_key_list(&self.entries))
    }

    fn set(&mut self, deadline: u64, key: &str, value: Vec<u8>, atomic: Atomicity) -> (r: Result<
        (),
        ExternalError,
    >) {
        assoc_set(&mut self.entries, key, value);
        Ok(())
    }

    fn delete(&mut self, deadline: u64, key: &str) -> (r: Result<(), ExternalError>) {
        assoc_delete(&mut self.entries, key);
        Ok(())
    }
}

impl MemBlobMulti {
    /// Returns a fresh, empty location.
    pub fn new() -> (r: MemBlobMulti)
        ensures
            r.inv(),
            r.contents() == Map::<Seq<char>, Seq<u8>>::empty(),
    {
        MemBlobMulti { entries: Vec::new() }
    }
}

/// Storing a value and immediately reading the same key back yields exactly
/// the stored value — under either atomicity mode, since the effect of
/// [`Blob::set`] does not depend on the mode.
pub proof fn lemma_set_then_get(st: BlobState, key: Seq<char>, value: Seq<u8>)
    ensures
        blob_set(st, key, value).contents.dom().contains(key),
        blob_set(st, key, value).contents[key] == value,
{
}

/// Deletion is idempotent: deleting an absent key leaves the contents
/// unchanged, and deleting the same key twice is the same as deleting it
/// once.
pub proof fn lemma_delete_idempotent(st: BlobState, key: Seq<char>)
    ensures
        !st.contents.dom().contains(key) ==> blob_delete(st, key).contents == st.contents,
        blob_delete(blob_delete(st, key), key) == blob_delete(st, key),
{
    if !st.contents.dom().contains(key) {
        assert(blob_delete(st, key).contents =~~= st.contents);
    }
    assert(blob_delete(blob_delete(st, key), key).contents =~~= blob_delete(st, key).contents);
}

/// Closing twice reports a transition exactly once: the first close of an
/// open handle returns `true`, every further close returns `false`.
pub proof fn lemma_close_twice(st: BlobState)
    requires
        st.open,
    ensures
        blob_close(st).1 == true,
        blob_close(blob_close(st).0).1 == false,
{
}

} // verus!
