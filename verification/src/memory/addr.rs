//! Addresses and page alignment.

use crate::consts::PAGE_SIZE;
use vstd::prelude::*;

verus! {

/// An address as the guest sees it, translated by the second stage.
pub type GuestPhysAddr = usize;

/// An address of host memory.
pub type HostPhysAddr = usize;

/// A physical address.
pub type PhysAddr = usize;

/// `addr` lies on a page boundary.
pub open spec fn spec_is_aligned(addr: usize) -> bool {
    addr % PAGE_SIZE == 0
}

/// The page boundary at or below `addr`.
pub open spec fn spec_align_down(addr: usize) -> usize {
    (addr - addr % PAGE_SIZE) as usize
}

/// The page boundary at or above `addr`, as a mathematical integer.
pub open spec fn spec_align_up(addr: usize) -> int {
    if addr % PAGE_SIZE == 0 {
        addr as int
    } else {
        addr - addr % PAGE_SIZE + PAGE_SIZE
    }
}

/// Tells whether `addr` lies on a page boundary.
pub fn is_aligned(addr: usize) -> (aligned: bool)
    ensures
        aligned == spec_is_aligned(addr),
{
    addr % PAGE_SIZE == 0
}

/// Rounds `addr` down to a page boundary.
pub fn align_down(addr: usize) -> (down: usize)
    ensures
        down == spec_align_down(addr),
        spec_is_aligned(down),
        down <= addr < down + PAGE_SIZE,
{
    addr - addr % PAGE_SIZE
}

/// Rounds `addr` up to a page boundary.
pub fn align_up(addr: usize) -> (up: usize)
    requires
        spec_align_up(addr) <= usize::MAX,
    ensures
        up == spec_align_up(addr),
        spec_is_aligned(up),
        addr <= up < addr + PAGE_SIZE,
{
    let rest: usize = addr % PAGE_SIZE;
    if rest == 0 {
        addr
    } else {
        addr - rest + PAGE_SIZE
    }
}

} // verus!
