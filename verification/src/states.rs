//! Sets of accessibility states: one bit per state, as the protocol numbers them.

use vstd::prelude::*;

verus! {

/// The bit of the state `Focused`: the protocol's thirteenth state, bit 12.
pub const FOCUSED: u64 = 0x1000;

/// The states an accessible is in, one bit per state.
#[derive(Clone, Copy, Debug, PartialEq, Eq, Hash, Structural)]
pub struct StateSet {
    /// One bit per state.
    pub bits: u64,
}

impl StateSet {
    /// The empty set.
    pub fn empty() -> (s: StateSet)
        ensures
            s.bits == 0,
    {
        StateSet { bits: 0 }
    }

    /// The set of the given bits.
    pub fn from_bits(bits: u64) -> (s: StateSet)
        ensures
            s.bits == bits,
    {
        StateSet { bits }
    }

    /// The bits of the set.
    pub fn bits(&self) -> (b: u64)
        ensures
            b == self.bits,
    {
        self.bits
    }

    /// Whether the set holds every state of `flags`.
    pub fn contains(self, flags: u64) -> (b: bool)
        ensures
            b == (self.bits & flags == flags),
    {
        self.bits & flags == flags
    }

    /// Whether the set holds no state.
    pub fn is_empty(self) -> (b: bool)
        ensures
            b == (self.bits == 0),
    {
        self.bits == 0
    }

    /// Add the states of `flags`.
    pub fn insert(&mut self, flags: u64)
        ensures
            final(self).bits == old(self).bits | flags,
    {
        self.bits = self.bits | flags;
    }

    /// Take away the states of `flags`.
    pub fn remove(&mut self, flags: u64)
        ensures
            final(self).bits == old(self).bits & !flags,
    {
        self.bits = self.bits & !flags;
    }
}

/// After adding a state the set holds it; after taking it away the set does not; the other
/// states are left as they were.
pub proof fn lemma_insert_remove(bits: u64, flags: u64, other: u64)
    ensures
        (bits | flags) & flags == flags,
        (bits & !flags) & flags == 0,
        other & flags == 0 ==> ((bits | flags) & other == bits & other),
        other & flags == 0 ==> ((bits & !flags) & other == bits & other),
{
    assert((bits | flags) & flags == flags) by (bit_vector);
    assert((bits & !flags) & flags == 0) by (bit_vector);
    assert(other & flags == 0 ==> ((bits | flags) & other == bits & other)) by (bit_vector);
    assert(other & flags == 0 ==> ((bits & !flags) & other == bits & other)) by (bit_vector);
}

} // verus!
