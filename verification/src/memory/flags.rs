//! Permissions and attributes of a mapping, independent of any page-table format.

use vstd::prelude::*;

verus! {

/// A set of memory flags, one bit each.
#[derive(Clone, Copy, Debug, PartialEq, Eq, Structural)]
pub struct MemFlags {
    /// The flags as a bit pattern.
    pub bits: u64,
}

impl MemFlags {
    /// The memory can be read.
    pub const READ: u64 = 0x1;

    /// The memory can be written.
    pub const WRITE: u64 = 0x2;

    /// Instructions can be fetched from the memory.
    pub const EXECUTE: u64 = 0x4;

    /// The memory is used for DMA.
    pub const DMA: u64 = 0x8;

    /// The memory is a device's registers.
    pub const IO: u64 = 0x10;

    /// The memory must not be mapped by large pages.
    pub const NO_HUGEPAGES: u64 = 0x100;

    /// The memory is accessible from user level.
    pub const USER: u64 = 0x200;

    /// Every flag there is.
    pub const ALL: u64 = 0x31f;

    /// Every flag of `other` is in `self`.
    pub open spec fn spec_contains(&self, other: u64) -> bool {
        self.bits & other == other
    }

    /// The set without any flag.
    pub fn empty() -> (flags: Self)
        ensures
            flags.bits == 0,
    {
        MemFlags { bits: 0 }
    }

    /// The flags of `bits`; bits that stand for no flag are dropped.
    pub fn from_bits_truncate(bits: u64) -> (flags: Self)
        ensures
            flags.bits == bits & Self::ALL,
    {
        MemFlags { bits: bits & Self::ALL }
    }

    /// The flags as a bit pattern.
    pub fn bits(&self) -> (bits: u64)
        ensures
            bits == self.bits,
    {
        self.bits
    }

    /// Tells whether every flag of `other` is in `self`.
    #[verifier::when_used_as_spec(spec_contains)]
    pub fn contains(&self, other: u64) -> (all: bool)
        ensures
            all == self.spec_contains(other),
    {
        self.bits & other == other
    }

    /// Tells whether no flag is set.
    pub fn is_empty(&self) -> (none: bool)
        ensures
            none == (self.bits == 0),
    {
        self.bits == 0
    }

    /// Adds the flags of `other`.
    pub fn insert(&mut self, other: u64)
        ensures
            final(self).bits == old(self).bits | other,
    {
        self.bits = self.bits | other;
    }

    /// The flags of `self` together with those of `other`.
    pub fn union(self, other: MemFlags) -> (both: Self)
        ensures
            both.bits == self.bits | other.bits,
    {
        MemFlags { bits: self.bits | other.bits }
    }
}

} // verus!
