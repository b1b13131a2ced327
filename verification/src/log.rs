//! An append-only log of byte entries keyed by sequence number.

use vstd::prelude::*;

use crate::errors::Error;
use crate::lock::{reentrant_for, spec_serialized, LockInfo};
use crate::seqno::SeqNo;
use crate::util::clone_bytes;

verus! {

/// The abstract state of a log location.
pub ghost struct LogState {
    /// The sequence number of the first retained entry; when no entry is
    /// retained, the sequence number the next write will be assigned.
    pub lower: nat,
    /// The retained entries, oldest first; entry `i` has sequence number
    /// `lower + i`.
    pub entries: Seq<Seq<u8>>,
    /// The lock contents recorded at the location, if any.
    pub lock: Option<Seq<char>>,
    /// Whether the location is open for writing.
    pub open: bool,
}

impl LogState {
    /// One past the sequence number of the newest entry ever written; the
    /// next write is assigned this number, even right after a truncation
    /// that removed every entry.
    pub open spec fn upper(self) -> nat {
        self.lower + self.entries.len()
    }

    /// The sequence number of retained entry `i`.
    pub open spec fn seqno_of(self, i: int) -> nat {
        (self.lower + i) as nat
    }
}

/// The state after appending `data`; the write is assigned sequence number
/// [`log_write_seqno`].
pub open spec fn log_write(st: LogState, data: Seq<u8>) -> LogState {
    LogState { entries: st.entries.push(data), ..st }
}

/// The sequence number assigned to the next write.
pub open spec fn log_write_seqno(st: LogState) -> nat {
    st.upper()
}

/// Whether `upper` is a valid truncation bound: at or above the oldest
/// retained sequence number, and at most one past the newest.
pub open spec fn truncate_in_bounds(st: LogState, upper: nat) -> bool {
    st.lower <= upper <= st.upper()
}

/// The state after removing every entry with sequence number below `upper`.
pub open spec fn log_truncate(st: LogState, upper: nat) -> LogState {
    LogState { lower: upper, entries: st.entries.skip(upper - st.lower), ..st }
}

/// The sequence-numbered entries a snapshot of state `st` yields, oldest
/// first.
pub open spec fn log_snapshot_entries(st: LogState) -> Seq<(nat, Seq<u8>)> {
    Seq::new(st.entries.len(), |i: int| (st.seqno_of(i), st.entries[i]))
}

/// The state after closing, releasing the lock, and whether the call
/// transitioned the log from open to closed.
pub open spec fn log_close(st: LogState) -> (LogState, bool) {
    (LogState { lock: None, open: false, ..st }, st.open)
}

/// A consistent point-in-time view of a log's retained entries.
pub struct LogSnapshot {
    /// The sequence number of the oldest retained entry.
    pub lower: SeqNo,
    /// One past the sequence number of the newest retained entry.
    pub upper: SeqNo,
    /// The retained entries with their sequence numbers, oldest first.
    pub entries: Vec<(SeqNo, Vec<u8>)>,
}

/// Whether `snap` is the snapshot of state `st`.
pub open spec fn snapshot_matches(snap: LogSnapshot, st: LogState) -> bool {
    &&& snap.lower.0 == st.lower
    &&& snap.upper.0 == st.upper()
    &&& snap.entries@.len() == st.entries.len()
    &&& forall|i: int|
        0 <= i < st.entries.len() ==> (#[trigger] snap.entries@[i]).0.0 == st.seqno_of(i)
            && snap.entries@[i].1@ == st.entries[i]
}

/// An abstraction over an append-only log of byte entries.
///
/// Every written entry is assigned a unique, incrementing sequence number,
/// starting at 0 for a fresh location and never reused, even across
/// truncation. An implementation is the exclusive writer of its location
/// while it holds the recorded lock.
pub trait Log: Sized {
    /// The implementation's internal invariant.
    spec fn inv(&self) -> bool;

    /// The abstract state of the log location.
    spec fn state(&self) -> LogState;

    /// Durably appends an entry and returns the sequence number it was
    /// assigned. Fails if and only if the log is closed, leaving it
    /// unchanged.
    fn write_sync(&mut self, buf: Vec<u8>) -> (r: Result<SeqNo, Error>)
        requires
            old(self).inv(),
            old(self).state().upper() < u64::MAX,
        ensures
            final(self).inv(),
            old(self).state().open ==> r == Ok::<SeqNo, Error>(
                SeqNo(log_write_seqno(old(self).state()) as u64),
            ) && final(self).state() == log_write(old(self).state(), buf@),
            !old(self).state().open ==> r is Err && final(self).state() == old(self).state(),
    ;

    /// Returns a consistent snapshot of all written but not yet truncated
    /// entries, in increasing sequence number order, together with the
    /// closed-open range `[lower, upper)` of sequence numbers it covers.
    /// Fails if and only if the log is closed.
    fn snapshot(&self) -> (r: Result<LogSnapshot, Error>)
        requires
            self.inv(),
        ensures
            match r {
                Ok(snap) => self.state().open && snapshot_matches(snap, self.state()),
                Err(_) => !self.state().open,
            },
    ;

    /// Durably removes every entry with a sequence number strictly below
    /// `upper`. Fails if and only if the log is closed or `upper` lies
    /// outside the current `[lower, upper]` bounds, leaving the log
    /// unchanged.
    fn truncate(&mut self, upper: SeqNo) -> (r: Result<(), Error>)
        requires
            old(self).inv(),
        ensures
            final(self).inv(),
            (old(self).state().open && truncate_in_bounds(old(self).state(), upper.0 as nat))
                ==> r == Ok::<(), Error>(()) && final(self).state() == log_truncate(
                old(self).state(),
                upper.0 as nat,
            ),
            !(old(self).state().open && truncate_in_bounds(old(self).state(), upper.0 as nat))
                ==> r is Err && final(self).state() == old(self).state(),
    ;

    /// Closes the log, releasing the exclusive-writer lock and causing every
    /// future operation to fail. Idempotent and never an error: returns
    /// whether this call transitioned the log from open to closed.
    fn close(&mut self) -> (r: Result<bool, Error>)
        requires
            old(self).inv(),
        ensures
            final(self).inv(),
            final(self).state() == log_close(old(self).state()).0,
            r == Ok::<bool, Error>(log_close(old(self).state()).1),
    ;
}

/// An in-memory log location.
///
/// The value owns the whole location: the retained entries, the recorded
/// lock, and whether a writer currently has it open. A process opens it with
/// [`MemLog::open`] before writing and may reopen it after a close, or after
/// a crash that left the lock recorded, under the reentrance rules of
/// [`LockInfo`].
pub struct MemLog {
    path: String,
    lower: u64,
    entries: Vec<Vec<u8>>,
    lock: Option<String>,
    open: bool,
}

impl Log for MemLog {
    closed spec fn inv(&self) -> bool {
        self.lower + self.entries@.len() <= u64::MAX
    }

    closed spec fn state(&self) -> LogState {
        LogState {
            lower: self.lower as nat,
            entries: self.entries.deep_view(),
            lock: match self.lock {
                Some(s) => Some(s@),
                None => None,
            },
            open: self.open,
        }
    }

    fn write_sync(&mut self, buf: Vec<u8>) -> (r: Result<SeqNo, Error>) {
        if !self.open {
            return Err(Error::new("log unexpectedly closed"));
        }
        let seqno = self.lower + self.entries.len() as u64;
        self.entries.push(buf);
        proof {
            assert(final(self).state().entries =~~= log_write(old(self).state(), buf@).entries);
        }
        Ok(SeqNo(seqno))
    }

    fn snapshot(&self) -> (r: Result<LogSnapshot, Error>) {
        if !self.open {
            return Err(Error::new("log unexpectedly closed"));
        }
        let n = self.entries.len();
        let mut entries: Vec<(SeqNo, Vec<u8>)> = Vec::new();
        let mut i: usize = 0;
        while i < n
            invariant
                i <= n,
                n == self.entries@.len(),
                self.inv(),
                entries@.len() == i,
                forall|j: int|
                    0 <= j < i ==> (#[trigger] entries@[j]).0.0 == self.state().seqno_of(j)
                        && entries@[j].1@ == self.state().entries[j],
            decreases n - i,
        {
            let data = clone_bytes(&self.entries[i]);
            entries.push((SeqNo(self.lower + i as u64), data));
            i = i + 1;
        }
        Ok(
            LogSnapshot {
                lower: SeqNo(self.lower),
                upper: SeqNo(self.lower + n as u64),
                entries,
            },
        )
    }

    fn truncate(&mut self, upper: SeqNo) -> (r: Result<(), Error>) {
        if !self.open {
            return Err(Error::new("log unexpectedly closed"));
        }
        let len = self.entries.len() as u64;
        if upper.0 < self.lower || upper.0 > self.lower + len {
            let mut message = String::from_str("invalid truncation ");
            message.append(crate::decimal::u64_to_decimal(upper.0).as_str());
            message.append(": log range is [");
            message.append(crate::decimal::u64_to_decimal(self.lower).as_str());
            message.append(", ");
            message.append(crate::decimal::u64_to_decimal(self.lower + len).as_str());
            message.append(")");
            return Err(Error::from_string(message));
        }
        let k = (upper.0 - self.lower) as usize;
        let ghost orig = old(self).state().entries;
        let mut i: usize = 0;
        while i < k
            invariant
                i <= k,
                self.entries@.len() == orig.len() - i,
                k <= orig.len(),
                forall|j: int|
                    0 <= j < self.entries@.len() ==> (#[trigger] self.entries@[j])@ == orig[i + j],
                self.lower == old(self).lower,
                self.lock == old(self).lock,
                self.open,
                old(self).inv(),
                orig == old(self).state().entries,
            decreases k - i,
        {
            let ghost prev = self.entries@;
            self.entries.remove(0);
            proof {
                assert forall|j: int| 0 <= j < self.entries@.len() implies (#[trigger] self
                    .entries@[j])@ == orig[(i + 1) + j] by {
                    assert(self.entries@[j] == prev[j + 1]);
                }
            }
            i = i + 1;
        }
        self.lower = upper.0;
        proof {
            assert(final(self).state().entries =~~= log_truncate(
                old(self).state(),
                upper.0 as nat,
            ).entries);
        }
        Ok(())
    }

    fn close(&mut self) -> (r: Result<bool, Error>) {
        let was_open = self.open;
        self.open = false;
        self.lock = None;
        Ok(was_open)
    }
}

impl MemLog {
    /// Returns a fresh, closed, unlocked log location named `path`.
    pub fn new(path: String) -> (r: MemLog)
        ensures
            r.inv(),
            r.state() == (LogState {
                lower: 0,
                entries: Seq::<Seq<u8>>::empty(),
                lock: None,
                open: false,
            }),
    {
        let r = MemLog { path, lower: 0, entries: Vec::new(), lock: None, open: false };
        proof {
            assert(r.state().entries =~~= Seq::<Seq<u8>>::empty());
        }
        r
    }

    /// Opens the location for exclusive write access, recording the given
    /// lock token. Succeeds if and only if no lock is recorded or the
    /// recorded lock is reentrance-compatible with `lock_info`; on failure
    /// the error names the location and the log is unchanged.
    pub fn open(&mut self, lock_info: &LockInfo) -> (r: Result<(), Error>)
        requires
            old(self).inv(),
        ensures
            final(self).inv(),
            r is Ok <==> match old(self).state().lock {
                None => true,
                Some(c) => reentrant_for(lock_info@.reentrance_id, c),
            },
            r is Ok ==> final(self).state() == (LogState {
                lock: Some(spec_serialized(lock_info@)),
                open: true,
                ..old(self).state()
            }),
            r is Err ==> final(self).state() == old(self).state(),
    {
        match &self.lock {
            None => {},
            Some(existing) => {
                match lock_info.check_reentrant_for(self.path.as_str(), existing.as_str()) {
                    Ok(()) => {},
                    Err(e) => {
                        return Err(e);
                    },
                }
            },
        }
        self.lock = Some(lock_info.serialize());
        self.open = true;
        Ok(())
    }
}

/// The state reached from `st` by appending each of `bufs` in order.
pub open spec fn log_after_writes(st: LogState, bufs: Seq<Seq<u8>>) -> LogState
    decreases bufs.len(),
{
    if bufs.len() == 0 {
        st
    } else {
        log_write(log_after_writes(st, bufs.drop_last()), bufs.last())
    }
}

/// Writing only ever appends: a sequence of writes leaves the lower bound,
/// the lock and the open flag unchanged and grows the entries by exactly the
/// written entries.
pub proof fn lemma_after_writes_shape(st: LogState, bufs: Seq<Seq<u8>>)
    ensures
        log_after_writes(st, bufs).lower == st.lower,
        log_after_writes(st, bufs).lock == st.lock,
        log_after_writes(st, bufs).open == st.open,
        log_after_writes(st, bufs).entries == st.entries + bufs,
    decreases bufs.len(),
{
    if bufs.len() == 0 {
        assert(st.entries + bufs =~~= st.entries);
    } else {
        lemma_after_writes_shape(st, bufs.drop_last());
        assert((st.entries + bufs.drop_last()).push(bufs.last()) =~~= st.entries + bufs);
    }
}

/// On a fresh, open log, the sequence numbers assigned by successive
/// `write_sync` calls are exactly 0, 1, 2, … in call order: the `k`-th write
/// is assigned sequence number `k`, whatever is written.
pub proof fn lemma_write_seqnos_consecutive(st: LogState, bufs: Seq<Seq<u8>>, k: int)
    requires
        st.lower == 0,
        st.entries.len() == 0,
        st.open,
        0 <= k < bufs.len(),
    ensures
        log_after_writes(st, bufs.take(k)).open,
        log_write_seqno(log_after_writes(st, bufs.take(k))) == k,
{
    lemma_after_writes_shape(st, bufs.take(k));
}

/// Within one log, accepted writes carry strictly increasing sequence
/// numbers: each write is assigned a number one greater than the previous
/// write's.
pub proof fn lemma_write_seqno_increases(st: LogState, data: Seq<u8>)
    ensures
        log_write_seqno(log_write(st, data)) == log_write_seqno(st) + 1,
{
}

/// Closing twice reports a transition exactly once: the first close of an
/// open log returns `true`, every further close returns `false`.
pub proof fn lemma_log_close_twice(st: LogState)
    requires
        st.open,
    ensures
        log_close(st).1 == true,
        log_close(log_close(st).0).1 == false,
{
}

/// Truncation never lowers the next sequence number to be assigned:
/// sequence numbers are not reused, even when a truncation removes every
/// retained entry.
pub proof fn lemma_truncate_preserves_upper(st: LogState, upper: nat)
    requires
        truncate_in_bounds(st, upper),
    ensures
        log_truncate(st, upper).upper() == st.upper(),
{
}

/// Truncating to a valid bound and then taking a snapshot yields exactly the
/// entries with sequence number at least `upper` that existed before the
/// truncation, with their original sequence numbers and in their original
/// order. (An out-of-bounds truncation fails and leaves the log unchanged:
/// see [`Log::truncate`].)
pub proof fn lemma_truncate_then_snapshot(st: LogState, upper: nat)
    requires
        truncate_in_bounds(st, upper),
    ensures
        log_snapshot_entries(log_truncate(st, upper)) == log_snapshot_entries(st).skip(
            upper - st.lower,
        ),
        forall|i: int|
            0 <= i < log_snapshot_entries(log_truncate(st, upper)).len()
                ==> (#[trigger] log_snapshot_entries(log_truncate(st, upper))[i]).0 >= upper,
{
    assert(log_snapshot_entries(log_truncate(st, upper)) =~~= log_snapshot_entries(st).skip(
        upper - st.lower,
    ));
}

} // verus!
