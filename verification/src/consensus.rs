//! A per-key linearizable compare-and-set register.

use vstd::prelude::*;

use crate::assoc::{assoc_map, assoc_set, find_key, keys_distinct, lemma_assoc_dom,
    lemma_assoc_value};
use crate::decimal::{spec_decimal, u64_to_decimal};
use crate::errors::ExternalError;
use crate::seqno::SeqNo;
use crate::util::clone_bytes;

verus! {

/// One accepted version of a consensus register: a sequence number and an
/// opaque payload. Immutable once constructed.
#[derive(Debug, Clone, PartialEq, Eq)]
pub struct VersionedData {
    /// The sequence number of the data.
    pub seqno: SeqNo,
    /// The data itself.
    pub data: Vec<u8>,
}

impl View for VersionedData {
    type V = (u64, Seq<u8>);

    open spec fn view(&self) -> (u64, Seq<u8>) {
        (self.seqno.0, self.data@)
    }
}

/// Whether the caller's arguments are coherent: the new sequence number must
/// be strictly greater than the expected one. Violating this is a programming
/// error, reported as an error distinct from an ordinary mismatch.
pub open spec fn cas_args_valid(expected: Option<SeqNo>, new: VersionedData) -> bool {
    match expected {
        Some(e) => new.seqno.0 > e.0,
        None => true,
    }
}

/// Whether the key's current state is what the caller expected: the key is
/// unset and the caller expected nothing, or it is set and its current
/// sequence number equals the expected one.
pub open spec fn cas_matches(
    regs: Map<Seq<char>, (u64, Seq<u8>)>,
    key: Seq<char>,
    expected: Option<SeqNo>,
) -> bool {
    match expected {
        Some(e) => regs.dom().contains(key) && regs[key].0 == e.0,
        None => !regs.dom().contains(key),
    }
}

/// The registers after an accepted write of `new` at `key`.
pub open spec fn cas_apply(
    regs: Map<Seq<char>, (u64, Seq<u8>)>,
    key: Seq<char>,
    new: VersionedData,
) -> Map<Seq<char>, (u64, Seq<u8>)> {
    regs.insert(key, new@)
}

/// Whether `cur` reports the current state of `key`: `None` for an unset
/// key, otherwise exactly the current versioned data.
pub open spec fn current_matches(
    cur: Option<VersionedData>,
    regs: Map<Seq<char>, (u64, Seq<u8>)>,
    key: Seq<char>,
) -> bool {
    match cur {
        Some(vd) => regs.dom().contains(key) && vd@ == regs[key],
        None => !regs.dom().contains(key),
    }
}

/// An abstraction over [`VersionedData`] held per key in a shared location,
/// updated only by compare-and-set.
///
/// There is no exclusivity: many processes may operate on the same location
/// at once, and correctness comes from the protocol alone. The accepted
/// writes at a key form one strict order by sequence number, and the whole
/// interface is linearizable: every call appears to take effect atomically
/// between its invocation and its response, so `head` returns the most
/// recent accepted write or one at least as new as any write that completed
/// before the call began.
pub trait Consensus: Sized {
    /// The implementation's internal invariant.
    spec fn inv(&self) -> bool;

    /// The current state of the registers: for each set key, its sequence
    /// number and data.
    spec fn registers(&self) -> Map<Seq<char>, (u64, Seq<u8>)>;

    /// Returns the current version of the data at `key`, or `None` if the
    /// key was never written, completing or failing by `deadline`.
    fn head(&self, key: &str, deadline: u64) -> (r: Result<Option<VersionedData>, ExternalError>)
        requires
            self.inv(),
        ensures
            match r {
                Ok(cur) => current_matches(cur, self.registers(), key@),
                Err(_) => false,
            },
    ;

    /// Updates the data at `key` to `new` if and only if the current
    /// sequence number is exactly `expected` (`None` meaning the key is
    /// unset); otherwise reports the key's current state so the caller can
    /// retry from it. Calling it with `new.seqno <= expected` is a
    /// programming error and fails outright, with an error distinct from the
    /// mismatch outcome and without touching the registers. Completes or
    /// fails by `deadline`.
    fn compare_and_set(
        &mut self,
        key: &str,
        deadline: u64,
        expected: Option<SeqNo>,
        new: VersionedData,
    ) -> (r: Result<Result<(), Option<VersionedData>>, ExternalError>)
        requires
            old(self).inv(),
        ensures
            final(self).inv(),
            !cas_args_valid(expected, new) ==> final(self).registers() == old(self).registers()
                && (match (r, expected) {
                (Err(e), Some(exp)) => e is Determinate && e@ == (
                "new seqno must be strictly greater than expected. Got new: SeqNo("@
                    + spec_decimal(new.seqno.0 as nat) + ") expected: SeqNo("@ + spec_decimal(
                    exp.0 as nat,
                ) + ")"@),
                _ => false,
            }),
            cas_args_valid(expected, new) && cas_matches(old(self).registers(), key@, expected)
                ==> r == Ok::<Result<(), Option<VersionedData>>, ExternalError>(Ok(()))
                && final(self).registers() == cas_apply(old(self).registers(), key@, new),
            cas_args_valid(expected, new) && !cas_matches(old(self).registers(), key@, expected)
                ==> final(self).registers() == old(self).registers() && (match r {
                Ok(Err(cur)) => current_matches(cur, old(self).registers(), key@),
                _ => false,
            }),
    ;
}

/// An in-memory consensus location: a set of registers updated in place,
/// trivially linearizable because every call completes atomically, and never
/// late for a deadline.
pub struct MemConsensus {
    entries: Vec<(String, VersionedData)>,
}

impl Consensus for MemConsensus {
    closed spec fn inv(&self) -> bool {
        keys_distinct(self.entries@)
    }

    closed spec fn registers(&self) -> Map<Seq<char>, (u64, Seq<u8>)> {
        assoc_map(self.entries@)
    }

    fn head(&self, key: &str, deadline: u64) -> (r: Result<
        Option<VersionedData>,
        ExternalError,
    >) {
        proof {
            lemma_assoc_dom::<VersionedData>(self.entries@);
        }
        match find_key(&self.entries, key) {
            Some(i) => {
                proof {
                    lemma_assoc_value(self.entries@, i as int);
                }
                let cur = &self.entries[i].1;
                Ok(Some(VersionedData { seqno: cur.seqno, data: clone_bytes(&cur.data) }))
            },
            None => Ok(None),
        }
    }

    fn compare_and_set(
        &mut self,
        key: &str,
        deadline: u64,
        expected: Option<SeqNo>,
        new: VersionedData,
    ) -> (r: Result<Result<(), Option<VersionedData>>, ExternalError>) {
        if let Some(exp) = &expected {
            if new.seqno.0 <= exp.0 {
                let mut message = String::from_str(
                    "new seqno must be strictly greater than expected. Got new: SeqNo(",
                );
                message.append(u64_to_decimal(new.seqno.0).as_str());
                message.append(") expected: SeqNo(");
                message.append(u64_to_decimal(exp.0).as_str());
                message.append(")");
                proof {
                    assert(message@ =~= "new seqno must be strictly greater than expected. Got new: SeqNo("@
                        + spec_decimal(new.seqno.0 as nat) + ") expected: SeqNo("@ + spec_decimal(
                        exp.0 as nat,
                    ) + ")"@);
                }
                return Err(ExternalError::determinate(message));
            }
        }
        proof {
            lemma_assoc_dom::<VersionedData>(self.entries@);
        }
        match find_key(&self.entries, key) {
            Some(i) => {
                proof {
                    lemma_assoc_value(self.entries@, i as int);
                }
                let accept = match &expected {
                    Some(exp) => self.entries[i].1.seqno.0 == exp.0,
                    None => false,
                };
                if accept {
                    assoc_set(&mut self.entries, key, new);
                    Ok(Ok(()))
                } else {
                    let cur = &self.entries[i].1;
                    Ok(
                        Err(
                            Some(
                                VersionedData {
                                    seqno: cur.seqno,
                                    data: clone_bytes(&cur.data),
                                },
                            ),
                        ),
                    )
                }
            },
            None => {
                match &expected {
                    None => {
                        assoc_set(&mut self.entries, key, new);
                        Ok(Ok(()))
                    },
                    Some(_) => Ok(Err(None)),
                }
            },
        }
    }
}

impl MemConsensus {
    /// Returns a fresh location with every key unset.
    pub fn new() -> (r: MemConsensus)
        ensures
            r.inv(),
            r.registers() == Map::<Seq<char>, (u64, Seq<u8>)>::empty(),
    {
        MemConsensus { entries: Vec::new() }
    }
}

/// Of two compare-and-set callers racing on the same key with the same
/// expectation, exactly one can be accepted: once the winner's write is
/// applied, the key holds the winner's versioned data and the same
/// expectation no longer matches, so the loser's call reports a mismatch
/// carrying the winner's data (see the mismatch case of
/// [`Consensus::compare_and_set`]).
pub proof fn lemma_cas_linearizable(
    regs: Map<Seq<char>, (u64, Seq<u8>)>,
    key: Seq<char>,
    expected: Option<SeqNo>,
    new: VersionedData,
)
    requires
        cas_args_valid(expected, new),
        cas_matches(regs, key, expected),
    ensures
        !cas_matches(cas_apply(regs, key, new), key, expected),
        cas_apply(regs, key, new).dom().contains(key),
        cas_apply(regs, key, new)[key] == new@,
{
}

/// Accepted writes at a key have strictly increasing sequence numbers: a
/// write accepted at a key that already holds data carries a sequence number
/// strictly greater than the one it replaces. (A call with
/// `new.seqno <= expected` never reaches the registers at all: it fails with
/// an error distinct from a mismatch, by the contract of
/// [`Consensus::compare_and_set`].)
pub proof fn lemma_cas_monotonic(
    regs: Map<Seq<char>, (u64, Seq<u8>)>,
    key: Seq<char>,
    expected: Option<SeqNo>,
    new: VersionedData,
)
    requires
        cas_args_valid(expected, new),
        cas_matches(regs, key, expected),
        regs.dom().contains(key),
    ensures
        new.seqno.0 > regs[key].0,
{
}

} // verus!
