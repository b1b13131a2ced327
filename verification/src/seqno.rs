//! Sequence numbers ordering the mutations of a persisted state machine.

use vstd::prelude::*;

verus! {

/// The sequence number of a state change at a persisted location.
///
/// Every accepted mutation of a log or of a consensus register is tagged with
/// a `SeqNo`, and within one location successive accepted mutations carry
/// strictly increasing sequence numbers.
#[derive(Clone, Copy, Debug, Default, PartialOrd, Ord, PartialEq, Eq, Structural)]
pub struct SeqNo(pub u64);

impl SeqNo {
    /// Returns the next `SeqNo` in the sequence.
    pub fn next(self) -> (r: SeqNo)
        requires
            self.0 < u64::MAX,
        ensures
            r.0 == self.0 + 1,
    {
        SeqNo(self.0 + 1)
    }
}

} // verus!
