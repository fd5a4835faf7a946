//! Sizes and addresses that describe the hypervisor's own memory layout.

use vstd::prelude::*;

verus! {

/// Size of one page of memory: the unit of second-stage translation.
pub const PAGE_SIZE: usize = 0x1000;

/// Size of the hypervisor heap.
pub const HV_HEAP_SIZE: usize = 1024 * 1024;

/// Size of the memory pool that page-table frames are taken from.
pub const HV_MEM_POOL_SIZE: usize = 8 * 1024 * 1024;

/// Size of the per-CPU data (stack and other CPU-local data).
pub const PER_CPU_SIZE: usize = 512 * 1024;

/// An address that no mapping ever has.
pub const INVALID_ADDRESS: usize = usize::MAX;

/// Where the loaded hypervisor image ends, and how many cores share what follows it.
#[derive(Clone, Copy, Debug, PartialEq, Eq, Structural)]
pub struct HvLayout {
    /// First address after the hypervisor's code and data: the per-CPU array starts here.
    pub core_end: usize,
    /// Number of physical cores of the platform.
    pub max_cpu_num: usize,
}

impl HvLayout {
    /// Address where the memory pool starts, as a mathematical integer.
    pub open spec fn spec_mem_pool_start(self) -> int {
        self.core_end + self.max_cpu_num * PER_CPU_SIZE
    }

    /// First address after the memory pool, as a mathematical integer.
    pub open spec fn spec_hv_end(self) -> int {
        self.spec_mem_pool_start() + HV_MEM_POOL_SIZE
    }

    /// The whole layout lies in the address space.
    pub open spec fn wf(self) -> bool {
        self.spec_hv_end() <= usize::MAX
    }
}

impl HvLayout {
    /// Tells whether the whole layout lies in the address space.
    pub fn is_wf(&self) -> (ok: bool)
        ensures
            ok == self.wf(),
    {
        if self.max_cpu_num > (usize::MAX - HV_MEM_POOL_SIZE) / PER_CPU_SIZE {
            return false;
        }
        self.core_end <= usize::MAX - HV_MEM_POOL_SIZE - self.max_cpu_num * PER_CPU_SIZE
    }
}

/// Address of the per-CPU data array: the end of the hypervisor image.
pub fn core_end(layout: &HvLayout) -> (addr: usize)
    ensures
        addr == layout.core_end,
{
    layout.core_end
}

/// Address of the memory pool, which follows the per-CPU data of every core.
pub fn mem_pool_start(layout: &HvLayout) -> (addr: usize)
    requires
        layout.spec_mem_pool_start() <= usize::MAX,
    ensures
        addr == layout.spec_mem_pool_start(),
{
    assert(layout.max_cpu_num * PER_CPU_SIZE <= usize::MAX) by (nonlinear_arith)
        requires
            layout.core_end + layout.max_cpu_num * PER_CPU_SIZE <= usize::MAX,
            layout.core_end >= 0,
    ;
    core_end(layout) + layout.max_cpu_num * PER_CPU_SIZE
}

/// First address after everything the hypervisor owns.
pub fn hv_end(layout: &HvLayout) -> (addr: usize)
    requires
        layout.wf(),
    ensures
        addr == layout.spec_hv_end(),
{
    mem_pool_start(layout) + HV_MEM_POOL_SIZE
}

} // verus!
