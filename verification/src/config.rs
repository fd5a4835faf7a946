//! What the configuration says of a guest.

use crate::memory::mm::MemoryRegion;
use vstd::prelude::*;

verus! {

/// Kind of a memory region: memory of the guest's own.
pub const MEM_TYPE_RAM: u32 = 0;

/// Kind of a memory region: a device that the guest drives itself.
pub const MEM_TYPE_IO: u32 = 1;

/// Kind of a memory region: a device that is emulated for the guest.
pub const MEM_TYPE_VIRTIO: u32 = 2;

/// One memory region of a guest, as the configuration declares it.
#[derive(Clone, Copy, Debug, PartialEq, Eq, Structural)]
pub struct HvConfigMemoryRegion {
    /// Kind of the region: one of the `MEM_TYPE_` constants.
    pub mem_type: u32,
    /// First host-physical address.
    pub physical_start: u64,
    /// First guest-physical address.
    pub virtual_start: u64,
    /// Number of bytes.
    pub size: u64,
}

impl HvConfigMemoryRegion {
    /// The region is of a known kind, and its addresses lie in the address
    /// space of this machine.
    pub open spec fn spec_is_supported(&self) -> bool {
        &&& self.mem_type == MEM_TYPE_RAM || self.mem_type == MEM_TYPE_IO || self.mem_type
            == MEM_TYPE_VIRTIO
        &&& self.physical_start <= usize::MAX
        &&& self.virtual_start <= usize::MAX
        &&& self.size <= usize::MAX
        &&& self.mem_type != MEM_TYPE_VIRTIO ==> MemoryRegion::spec_fits(
            self.virtual_start as usize,
            self.physical_start as usize,
            self.size as usize,
        )
    }

    /// Tells whether the region is of a known kind and lies in the address
    /// space of this machine.
    pub fn is_supported(&self) -> (ok: bool)
        ensures
            ok == self.spec_is_supported(),
    {
        if !(self.mem_type == MEM_TYPE_RAM || self.mem_type == MEM_TYPE_IO || self.mem_type
            == MEM_TYPE_VIRTIO) {
            return false;
        }
        if self.physical_start > usize::MAX as u64 || self.virtual_start > usize::MAX as u64
            || self.size > usize::MAX as u64 {
            return false;
        }
        self.mem_type == MEM_TYPE_VIRTIO || MemoryRegion::fits(
            self.virtual_start as usize,
            self.physical_start as usize,
            self.size as usize,
        )
    }
}

} // verus!
