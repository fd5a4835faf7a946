//! What the hypervisor keeps of a core while its guest is out.

use vstd::prelude::*;

verus! {

/// The state of one core that trap handling reads and changes.
#[derive(Clone, Copy, Debug, PartialEq, Eq, Structural)]
pub struct ArchCpu {
    /// Number of the core.
    pub cpuid: usize,
    /// The guest's program counter at the trap; the guest goes on from here.
    pub sepc: usize,
    /// The core has the `sstc` extension: a timer of the supervisor's own.
    pub sstc: bool,
}

impl ArchCpu {
    /// The state of core `cpuid` before its guest has run.
    pub fn new(cpuid: usize) -> (cpu: Self)
        ensures
            cpu == (ArchCpu { cpuid, sepc: 0, sstc: false }),
    {
        ArchCpu { cpuid, sepc: 0, sstc: false }
    }

    /// Moves the guest's program counter forward by `width` bytes, so that
    /// the guest goes on behind the instruction that trapped. The counter
    /// wraps at the end of the address space, as that of the hardware does.
    pub fn advance_pc(&mut self, width: usize)
        ensures
            *final(self) == (ArchCpu { sepc: old(self).sepc.wrapping_add(width), ..*old(self) }),
    {
        self.sepc = self.sepc.wrapping_add(width);
    }
}

} // verus!
