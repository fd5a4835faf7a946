//! A zone: one guest, with its memory, its devices, its cores and its
//! interrupts.

use crate::arch::riscv64::paging::Stage2PageTable;
use crate::memory::mm::MemorySet;
use vstd::prelude::*;

verus! {

/// Number of interrupts that a zone can own.
pub const MAX_IRQS: usize = 1024;

/// Number of 32-bit words in the bitmap of a zone's interrupts.
pub const IRQ_BITMAP_WORDS: usize = 32;

/// The emulations that a device's window can be handed to.
#[derive(Clone, Copy, Debug, PartialEq, Eq, Structural)]
pub enum MMIOHandler {
    /// The bridge to the virtio back end.
    Virtio,
}

/// A window of guest-physical addresses that is left unmapped, so that every
/// access to it traps and is emulated.
#[derive(Clone, Copy, Debug, PartialEq, Eq, Structural)]
pub struct MMIOConfig {
    /// First address of the window.
    pub start: usize,
    /// Number of bytes.
    pub size: usize,
    /// Who emulates the device.
    pub handler: MMIOHandler,
    /// A value that is handed to the emulation with every access.
    pub arg: usize,
}

/// A set of cores, one bit each.
#[derive(Clone, Copy, Debug, PartialEq, Eq, Structural)]
pub struct CpuSet {
    /// Highest number that a core of the platform can have.
    pub max_cpu_id: usize,
    /// Bit `n` is set for core `n` of the set.
    pub bitmap: u64,
}

impl CpuSet {
    /// Core `id` is in the set.
    pub open spec fn spec_contains_cpu(&self, id: usize) -> bool {
        id <= self.max_cpu_id && id < 64 && self.bitmap & (1u64 << id) != 0
    }

    /// The set of the cores in `bitmap`, on a platform whose cores are
    /// numbered up to `max_cpu_id`.
    pub fn new(max_cpu_id: usize, bitmap: u64) -> (set: Self)
        ensures
            set == (CpuSet { max_cpu_id, bitmap }),
    {
        CpuSet { max_cpu_id, bitmap }
    }

    /// Tells whether core `id` is in the set.
    pub fn contains_cpu(&self, id: usize) -> (inside: bool)
        ensures
            inside == self.spec_contains_cpu(id),
    {
        id <= self.max_cpu_id && id < 64 && self.bitmap & (1u64 << id) != 0
    }
}

/// One guest.
pub struct Zone {
    /// Number of the zone.
    pub id: usize,
    /// The guest's memory: what its second-stage table maps.
    pub gpm: MemorySet,
    /// The windows of emulated devices.
    pub mmio: Vec<MMIOConfig>,
    /// The cores that run the guest.
    pub cpu_set: CpuSet,
    /// The interrupts that the guest owns: bit `n % 32` of word `n / 32` is
    /// set for interrupt `n`.
    pub irq_bitmap: [u32; IRQ_BITMAP_WORDS],
}

/// Interrupt `irq` is marked in `bitmap`.
pub open spec fn spec_irq_in_bitmap(bitmap: Seq<u32>, irq: int) -> bool {
    bitmap[irq / 32] & (1u32 << ((irq % 32) as u32)) != 0
}

impl Zone {
    /// The zone owns interrupt `irq`.
    pub open spec fn spec_owns_irq(&self, irq: int) -> bool {
        0 <= irq < MAX_IRQS && spec_irq_in_bitmap(self.irq_bitmap@, irq)
    }

    /// The memory of the zone is in order.
    pub open spec fn wf(&self) -> bool {
        self.gpm.wf()
    }

    /// A zone with the number `id` that has no memory, no device, no core and
    /// no interrupt yet. The pool of its page table lies at `pt_base` and has
    /// room for `pt_capacity` tables besides the root.
    pub fn new(id: usize, pt_base: usize, pt_capacity: usize) -> (zone: Self)
        requires
            Stage2PageTable::spec_pool_fits(pt_base, pt_capacity),
        ensures
            zone.id == id,
            zone.wf(),
            zone.gpm.spec_capacity() == pt_capacity,
            zone.gpm.spec_page_table().spec_base() == pt_base,
            zone.gpm@ == Seq::<crate::memory::mm::MemoryRegion>::empty(),
            zone.mmio@ == Seq::<MMIOConfig>::empty(),
            zone.cpu_set == (CpuSet { max_cpu_id: 0, bitmap: 0 }),
            forall|irq: int| !zone.spec_owns_irq(irq),
    {
        let zone = Zone {
            id,
            gpm: MemorySet::new(pt_base, pt_capacity),
            mmio: Vec::new(),
            cpu_set: CpuSet::new(0, 0),
            irq_bitmap: [0u32; IRQ_BITMAP_WORDS],
        };
        assert forall|irq: int| !zone.spec_owns_irq(irq) by {
            if 0 <= irq < MAX_IRQS {
                let bit = (irq % 32) as u32;
                assert(0u32 & (1u32 << bit) == 0) by (bit_vector);
            }
        }
        zone
    }

    /// Registers the window of `size` bytes from `start` for emulation by
    /// `handler`, which gets `arg` with every access.
    pub fn mmio_region_register(&mut self, start: usize, size: usize, handler: MMIOHandler, arg: usize)
        ensures
            final(self).mmio@ == old(self).mmio@.push(MMIOConfig { start, size, handler, arg }),
            final(self).id == old(self).id,
            final(self).gpm == old(self).gpm,
            final(self).cpu_set == old(self).cpu_set,
            final(self).irq_bitmap == old(self).irq_bitmap,
    {
        self.mmio.push(MMIOConfig { start, size, handler, arg });
    }
}

} // verus!
