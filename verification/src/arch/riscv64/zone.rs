//! Setting up a zone from what the configuration declares: its memory, its
//! emulated devices, its interrupts, and what its cores can do.

use crate::arch::riscv64::cpu::ArchCpu;
use crate::arch::riscv64::paging::spec_table_bound;
use crate::config::{HvConfigMemoryRegion, MEM_TYPE_IO, MEM_TYPE_VIRTIO};
use crate::error::{HvError, HvResult};
use crate::memory::flags::MemFlags;
use crate::memory::mm::{spec_insert, spec_overlaps_any, spec_reserved, MemoryRegion};
use crate::zone::{spec_irq_in_bitmap, MMIOConfig, MMIOHandler, Zone, MAX_IRQS};
use vstd::prelude::*;

verus! {

/// What the configuration says of a zone's interrupt controller.
#[derive(Clone, Copy, Debug, PartialEq, Eq, Structural)]
pub struct HvArchZoneConfig {
    /// Address of the controller's registers.
    pub plic_base: usize,
    /// Size of the controller's registers.
    pub plic_size: usize,
}

/// The permissions of a region of the kind `mem_type`: read, write and
/// execute, and for a device the mark of one.
pub open spec fn spec_region_flags(mem_type: u32) -> MemFlags {
    if mem_type == MEM_TYPE_IO {
        MemFlags { bits: MemFlags::READ | MemFlags::WRITE | MemFlags::EXECUTE | MemFlags::IO }
    } else {
        MemFlags { bits: MemFlags::READ | MemFlags::WRITE | MemFlags::EXECUTE }
    }
}

/// The mapping that the configured region `config` asks for.
pub open spec fn spec_region_of(config: HvConfigMemoryRegion) -> MemoryRegion {
    MemoryRegion::spec_new_with_offset_mapper(
        config.virtual_start as usize,
        config.physical_start as usize,
        config.size as usize,
        spec_region_flags(config.mem_type),
    )
}

/// The window that the configured region `config` asks to have emulated: its
/// host-physical address names it, and is handed to the emulation.
pub open spec fn spec_window_of(config: HvConfigMemoryRegion) -> MMIOConfig {
    MMIOConfig {
        start: config.physical_start as usize,
        size: config.size as usize,
        handler: MMIOHandler::Virtio,
        arg: config.physical_start as usize,
    }
}

/// The memory and the emulated windows of a zone, and the result, after
/// `configs` are set up one after the other. A region of memory or of a
/// device is mapped; one of an emulated device is registered and not mapped.
/// The first region that cannot be mapped ends the setup with its error;
/// what was set up before it stays.
pub open spec fn spec_pt_init(
    gpm: Seq<MemoryRegion>,
    capacity: usize,
    mmio: Seq<MMIOConfig>,
    configs: Seq<HvConfigMemoryRegion>,
) -> (Seq<MemoryRegion>, Seq<MMIOConfig>, HvResult)
    decreases configs.len(),
{
    if configs.len() == 0 {
        (gpm, mmio, Ok(()))
    } else if configs[0].mem_type == MEM_TYPE_VIRTIO {
        spec_pt_init(gpm, capacity, mmio.push(spec_window_of(configs[0])), configs.drop_first())
    } else {
        let (mapped, result) = spec_insert(gpm, capacity, spec_region_of(configs[0]));
        if result is Err {
            (mapped, mmio, result)
        } else {
            spec_pt_init(mapped, capacity, mmio, configs.drop_first())
        }
    }
}

/// The region that `config` asks to have mapped is one that setup maps:
/// `config` is no emulated device, and the region is not empty.
pub open spec fn spec_asks_mapping(config: HvConfigMemoryRegion) -> bool {
    config.mem_type != MEM_TYPE_VIRTIO && spec_region_of(config).size > 0
}

/// The number of tables that are set aside when `configs` are set up: for
/// each region that is mapped, as many as it can take at most.
pub open spec fn spec_tables_asked(configs: Seq<HvConfigMemoryRegion>) -> int
    decreases configs.len(),
{
    if configs.len() == 0 {
        0
    } else {
        (if spec_asks_mapping(configs[0]) {
            spec_table_bound(spec_region_of(configs[0]).start, spec_region_of(configs[0]).size)
        } else {
            0
        }) + spec_tables_asked(configs.drop_first())
    }
}

/// Setting aside tables never gives any back.
proof fn lemma_tables_asked_nonnegative(configs: Seq<HvConfigMemoryRegion>)
    ensures
        spec_tables_asked(configs) >= 0,
    decreases configs.len(),
{
    if configs.len() > 0 {
        lemma_tables_asked_nonnegative(configs.drop_first());
    }
}

/// Setup succeeds where nothing stands in its way: every region to be mapped
/// is one that a table can map, shares no address with what is mapped
/// already nor with a region before it in the list, and the pool has room
/// for the tables that all of them can take at most.
pub proof fn lemma_pt_init_succeeds(
    gpm: Seq<MemoryRegion>,
    capacity: usize,
    mmio: Seq<MMIOConfig>,
    configs: Seq<HvConfigMemoryRegion>,
)
    requires
        forall|i: int|
            0 <= i < configs.len() && spec_asks_mapping(#[trigger] configs[i]) ==> {
                &&& spec_region_of(configs[i]).spec_is_mappable()
                &&& !spec_overlaps_any(gpm, spec_region_of(configs[i]))
            },
        forall|j: int, i: int|
            0 <= j < i < configs.len() && spec_asks_mapping(#[trigger] configs[j])
                && spec_asks_mapping(#[trigger] configs[i]) ==> !spec_region_of(
                configs[j],
            ).spec_overlaps(spec_region_of(configs[i])),
        spec_reserved(gpm) + spec_tables_asked(configs) <= capacity,
    ensures
        spec_pt_init(gpm, capacity, mmio, configs).2 is Ok,
    decreases configs.len(),
{
    if configs.len() > 0 {
        let first = configs[0];
        let rest = configs.drop_first();
        let region = spec_region_of(first);
        lemma_tables_asked_nonnegative(rest);
        assert forall|i: int| 0 <= i < rest.len() implies rest[i] == configs[i + 1] by {}
        if spec_asks_mapping(first) {
            let mapped = gpm.push(region);
            assert(mapped.drop_last() == gpm);
            assert(spec_insert(gpm, capacity, region) == (mapped, Ok::<(), HvError>(())));
            assert forall|i: int|
                0 <= i < rest.len() && spec_asks_mapping(#[trigger] rest[i]) implies {
                &&& spec_region_of(rest[i]).spec_is_mappable()
                &&& !spec_overlaps_any(mapped, spec_region_of(rest[i]))
            } by {
                let other = spec_region_of(rest[i]);
                assert(spec_asks_mapping(configs[i + 1]));
                assert(!spec_overlaps_any(gpm, other));
                assert(!spec_region_of(configs[0]).spec_overlaps(other));
                assert forall|k: int| 0 <= k < mapped.len() implies !(
                #[trigger] mapped[k]).spec_overlaps(other) by {
                    if k < gpm.len() {
                        assert(mapped[k] == gpm[k]);
                    }
                }
            }
            assert forall|j: int, i: int|
                0 <= j < i < rest.len() && spec_asks_mapping(#[trigger] rest[j])
                    && spec_asks_mapping(#[trigger] rest[i]) implies !spec_region_of(
                rest[j],
            ).spec_overlaps(spec_region_of(rest[i])) by {
                assert(spec_asks_mapping(configs[j + 1]) && spec_asks_mapping(configs[i + 1]));
            }
            lemma_pt_init_succeeds(mapped, capacity, mmio, rest);
        } else {
            let windows = if first.mem_type == MEM_TYPE_VIRTIO {
                mmio.push(spec_window_of(first))
            } else {
                mmio
            };
            assert forall|i: int|
                0 <= i < rest.len() && spec_asks_mapping(#[trigger] rest[i]) implies {
                &&& spec_region_of(rest[i]).spec_is_mappable()
                &&& !spec_overlaps_any(gpm, spec_region_of(rest[i]))
            } by {
                assert(spec_asks_mapping(configs[i + 1]));
            }
            assert forall|j: int, i: int|
                0 <= j < i < rest.len() && spec_asks_mapping(#[trigger] rest[j])
                    && spec_asks_mapping(#[trigger] rest[i]) implies !spec_region_of(
                rest[j],
            ).spec_overlaps(spec_region_of(rest[i])) by {
                assert(spec_asks_mapping(configs[j + 1]) && spec_asks_mapping(configs[i + 1]));
            }
            lemma_pt_init_succeeds(gpm, capacity, windows, rest);
        }
    }
}

/// `irq` is marked in `bitmap`, or is one of `irqs`.
pub open spec fn spec_marked_or_listed(bitmap: Seq<u32>, irqs: Seq<u32>, irq: int) -> bool {
    spec_irq_in_bitmap(bitmap, irq) || exists|k: int| 0 <= k < irqs.len() && irqs[k] == irq
}

/// Setting bit `bit` of a word sets that bit and leaves the others.
proof fn lemma_set_bit(word: u32, bit: u32, other: u32)
    by (bit_vector)
    requires
        bit < 32,
        other < 32,
    ensures
        ((word | (1u32 << bit)) & (1u32 << other) != 0) == (word & (1u32 << other) != 0 || other
            == bit),
{
}

/// `text` holds the four characters `sstc` one after the other.
pub open spec fn spec_has_sstc(text: Seq<char>) -> bool {
    exists|i: int|
        0 <= i && i + 4 <= text.len() && #[trigger] text[i] == 's' && text[i + 1] == 's' && text[i
            + 2] == 't' && text[i + 3] == 'c'
}

/// Tells whether the description `isa` of a core's instruction set names the
/// extension `sstc`.
pub fn has_sstc(isa: &str) -> (found: bool)
    ensures
        found == spec_has_sstc(isa@),
{
    let len = isa.unicode_len();
    if len < 4 {
        return false;
    }
    let mut i: usize = 0;
    while i <= len - 4
        invariant
            len == isa@.len(),
            len >= 4,
            0 <= i <= len - 3,
            forall|k: int|
                0 <= k < i ==> !(#[trigger] isa@[k] == 's' && isa@[k + 1] == 's' && isa@[k + 2]
                    == 't' && isa@[k + 3] == 'c'),
        decreases len - i,
    {
        if isa.get_char(i) == 's' && isa.get_char(i + 1) == 's' && isa.get_char(i + 2) == 't'
            && isa.get_char(i + 3) == 'c' {
            return true;
        }
        i += 1;
    }
    false
}

/// What the device tree says of one core's instruction set.
pub struct CpuIsa {
    /// Number of the core.
    pub cpuid: usize,
    /// The property `riscv,isa` of the core's node.
    pub isa: String,
}

/// Finds the first of `nodes` that describes core `cpuid`.
pub fn node_of(nodes: &Vec<CpuIsa>, cpuid: usize) -> (found: Option<usize>)
    ensures
        match found {
            Some(k) => k < nodes@.len() && nodes@[k as int].cpuid == cpuid && forall|j: int|
                0 <= j < k ==> (#[trigger] nodes@[j]).cpuid != cpuid,
            None => forall|j: int| 0 <= j < nodes@.len() ==> (#[trigger] nodes@[j]).cpuid != cpuid,
        },
{
    let mut k: usize = 0;
    while k < nodes.len()
        invariant
            0 <= k <= nodes@.len(),
            forall|j: int| 0 <= j < k ==> (#[trigger] nodes@[j]).cpuid != cpuid,
        decreases nodes@.len() - k,
    {
        if nodes[k].cpuid == cpuid {
            return Some(k);
        }
        k += 1;
    }
    None
}

/// Core `cpuid` of the zone has a timer of the supervisor's own, by what the
/// first of `nodes` that describes it says.
pub open spec fn spec_core_has_sstc(zone: &Zone, nodes: Seq<CpuIsa>, cpuid: usize) -> bool {
    zone.cpu_set.spec_contains_cpu(cpuid) && exists|k: int|
        0 <= k < nodes.len() && (#[trigger] nodes[k]).cpuid == cpuid && spec_has_sstc(nodes[k].isa@)
            && forall|j: int| 0 <= j < k ==> (#[trigger] nodes[j]).cpuid != cpuid
}

impl Zone {
    /// Sets up the memory of the zone from the regions that the
    /// configuration declares, in their order. Memory and devices that the
    /// guest drives itself are mapped at a fixed offset, with permission to
    /// read, write and execute. An emulated device is registered for
    /// emulation and left unmapped, so that every access to it traps.
    ///
    /// A region that cannot be mapped ends the setup with its error: one that
    /// overlaps what is mapped already or lies beyond what a table can map,
    /// as an invalid argument; one that the pool has no tables for, for lack
    /// of memory. The regions before it stay set up.
    pub fn pt_init(&mut self, mem_regions: &[HvConfigMemoryRegion]) -> (result: HvResult)
        requires
            old(self).wf(),
            forall|i: int|
                0 <= i < mem_regions@.len() ==> (#[trigger] mem_regions@[i]).spec_is_supported(),
        ensures
            final(self).wf(),
            (final(self).gpm@, final(self).mmio@, result) == spec_pt_init(
                old(self).gpm@,
                old(self).gpm.spec_capacity(),
                old(self).mmio@,
                mem_regions@,
            ),
            final(self).gpm.spec_capacity() == old(self).gpm.spec_capacity(),
            final(self).gpm.spec_page_table().spec_base() == old(
                self,
            ).gpm.spec_page_table().spec_base(),
            final(self).id == old(self).id,
            final(self).cpu_set == old(self).cpu_set,
            final(self).irq_bitmap == old(self).irq_bitmap,
    {
        let ghost capacity = old(self).gpm.spec_capacity();
        let ghost goal = spec_pt_init(old(self).gpm@, capacity, old(self).mmio@, mem_regions@);
        let mut i: usize = 0;
        assert(mem_regions@.subrange(0, mem_regions@.len() as int) == mem_regions@);
        while i < mem_regions.len()
            invariant
                0 <= i <= mem_regions@.len(),
                self.wf(),
                forall|k: int|
                    0 <= k < mem_regions@.len() ==> (#[trigger] mem_regions@[k]).spec_is_supported(),
                goal == spec_pt_init(old(self).gpm@, capacity, old(self).mmio@, mem_regions@),
                capacity == self.gpm.spec_capacity(),
                capacity == old(self).gpm.spec_capacity(),
                self.gpm.spec_page_table().spec_base() == old(
                    self,
                ).gpm.spec_page_table().spec_base(),
                goal == spec_pt_init(
                    self.gpm@,
                    capacity,
                    self.mmio@,
                    mem_regions@.subrange(i as int, mem_regions@.len() as int),
                ),
                self.id == old(self).id,
                self.cpu_set == old(self).cpu_set,
                self.irq_bitmap == old(self).irq_bitmap,
            decreases mem_regions@.len() - i,
        {
            let mem_region = &mem_regions[i];
            let ghost rest = mem_regions@.subrange(i as int, mem_regions@.len() as int);
            assert(rest[0] == mem_regions@[i as int]);
            assert(rest.drop_first() == mem_regions@.subrange(
                i as int + 1,
                mem_regions@.len() as int,
            ));
            assert(mem_region.spec_is_supported());
            if mem_region.mem_type == MEM_TYPE_VIRTIO {
                self.mmio_region_register(
                    mem_region.physical_start as usize,
                    mem_region.size as usize,
                    MMIOHandler::Virtio,
                    mem_region.physical_start as usize,
                );
            } else {
                let mut flags = MemFlags {
                    bits: MemFlags::READ | MemFlags::WRITE | MemFlags::EXECUTE,
                };
                if mem_region.mem_type == MEM_TYPE_IO {
                    flags.insert(MemFlags::IO);
                }
                let region = MemoryRegion::new_with_offset_mapper(
                    mem_region.virtual_start as usize,
                    mem_region.physical_start as usize,
                    mem_region.size as usize,
                    flags,
                );
                assert(region == spec_region_of(*mem_region));
                let inserted = self.gpm.insert(region);
                if inserted.is_err() {
                    assert(goal == (self.gpm@, self.mmio@, inserted));
                    return inserted;
                }
            }
            i += 1;
        }
        Ok(())
    }

    /// Sets up the emulated interrupt controller of the zone. There is
    /// nothing to set up: the zone stays as it is.
    pub fn mmio_init(&mut self, hv_config: &HvArchZoneConfig)
        ensures
            *final(self) == *old(self),
    {
    }

    /// Marks the interrupts `irqs` as the zone's own.
    pub fn irq_bitmap_init(&mut self, irqs: &[u32])
        requires
            forall|k: int| 0 <= k < irqs@.len() ==> (#[trigger] irqs@[k]) < MAX_IRQS,
        ensures
            forall|irq: int|
                0 <= irq < MAX_IRQS ==> (#[trigger] final(self).spec_owns_irq(irq)
                    == spec_marked_or_listed(old(self).irq_bitmap@, irqs@, irq)),
            final(self).id == old(self).id,
            final(self).gpm == old(self).gpm,
            final(self).mmio == old(self).mmio,
            final(self).cpu_set == old(self).cpu_set,
    {
        let mut i: usize = 0;
        while i < irqs.len()
            invariant
                0 <= i <= irqs@.len(),
                forall|k: int| 0 <= k < irqs@.len() ==> (#[trigger] irqs@[k]) < MAX_IRQS,
                forall|irq: int|
                    0 <= irq < MAX_IRQS ==> (#[trigger] self.spec_owns_irq(irq)
                        == spec_marked_or_listed(
                        old(self).irq_bitmap@,
                        irqs@.subrange(0, i as int),
                        irq,
                    )),
                self.id == old(self).id,
                self.gpm == old(self).gpm,
                self.mmio == old(self).mmio,
                self.cpu_set == old(self).cpu_set,
            decreases irqs@.len() - i,
        {
            let ghost before = *self;
            let ghost seen = irqs@.subrange(0, i as int);
            let ghost now = irqs@.subrange(0, i as int + 1);
            self.insert_irq_to_bitmap(irqs[i]);
            assert forall|irq: int| 0 <= irq < MAX_IRQS implies (#[trigger] self.spec_owns_irq(irq)
                == spec_marked_or_listed(old(self).irq_bitmap@, now, irq)) by {
                assert(before.spec_owns_irq(irq) == spec_marked_or_listed(
                    old(self).irq_bitmap@,
                    seen,
                    irq,
                ));
                if spec_marked_or_listed(old(self).irq_bitmap@, seen, irq) && !spec_irq_in_bitmap(
                    old(self).irq_bitmap@,
                    irq,
                ) {
                    let k = choose|k: int| 0 <= k < seen.len() && seen[k] == irq;
                    assert(now[k] == irq);
                }
                if irqs@[i as int] == irq {
                    assert(now[i as int] == irq);
                }
                if spec_marked_or_listed(old(self).irq_bitmap@, now, irq) && !spec_irq_in_bitmap(
                    old(self).irq_bitmap@,
                    irq,
                ) {
                    let k = choose|k: int| 0 <= k < now.len() && now[k] == irq;
                    if k < i {
                        assert(seen[k] == irq);
                    }
                }
            }
            i += 1;
        }
        assert(irqs@.subrange(0, irqs@.len() as int) == irqs@);
    }

    /// Marks the interrupt `irq` as the zone's own. The zone can own the
    /// interrupts below 1024.
    pub fn insert_irq_to_bitmap(&mut self, irq: u32)
        requires
            irq < MAX_IRQS,
        ensures
            forall|other: int|
                0 <= other < MAX_IRQS ==> (#[trigger] final(self).spec_owns_irq(other) == (old(
                    self,
                ).spec_owns_irq(other) || other == irq)),
            final(self).id == old(self).id,
            final(self).gpm == old(self).gpm,
            final(self).mmio == old(self).mmio,
            final(self).cpu_set == old(self).cpu_set,
    {
        let irq_index = irq / 32;
        let irq_bit = irq % 32;
        let word = self.irq_bitmap[irq_index as usize];
        self.irq_bitmap[irq_index as usize] = word | (1u32 << irq_bit);
        assert forall|other: int| 0 <= other < MAX_IRQS implies (#[trigger] self.spec_owns_irq(
            other,
        ) == (old(self).spec_owns_irq(other) || other == irq)) by {
            if other / 32 == irq_index {
                lemma_set_bit(word, irq_bit, (other % 32) as u32);
            }
        }
    }

    /// Tells whether the zone owns the interrupt `irq`.
    pub fn owns_irq(&self, irq: u32) -> (owned: bool)
        ensures
            owned == self.spec_owns_irq(irq as int),
    {
        if irq >= MAX_IRQS as u32 {
            return false;
        }
        self.irq_bitmap[(irq / 32) as usize] & (1u32 << (irq % 32)) != 0
    }

    /// The interrupts that the zone owns, in rising order.
    pub fn owned_irqs(&self) -> (found: Vec<u32>)
        ensures
            forall|k: int| 0 <= k < found@.len() ==> self.spec_owns_irq(#[trigger] found@[k] as int),
            forall|irq: int|
                self.spec_owns_irq(irq) ==> exists|k: int|
                    0 <= k < found@.len() && #[trigger] found@[k] == irq,
            forall|j: int, k: int| 0 <= j < k < found@.len() ==> found@[j] < found@[k],
    {
        let mut found: Vec<u32> = Vec::new();
        let mut irq: u32 = 0;
        while irq < MAX_IRQS as u32
            invariant
                0 <= irq <= MAX_IRQS,
                forall|k: int|
                    0 <= k < found@.len() ==> self.spec_owns_irq(#[trigger] found@[k] as int)
                        && found@[k] < irq,
                forall|n: int|
                    0 <= n < irq && self.spec_owns_irq(n) ==> exists|k: int|
                        0 <= k < found@.len() && #[trigger] found@[k] == n,
                forall|j: int, k: int| 0 <= j < k < found@.len() ==> found@[j] < found@[k],
            decreases MAX_IRQS - irq,
        {
            if self.owns_irq(irq) {
                let ghost before = found@;
                found.push(irq);
                assert forall|n: int| 0 <= n < irq + 1 && self.spec_owns_irq(n) implies exists|
                    k: int,
                |
                    0 <= k < found@.len() && #[trigger] found@[k] == n by {
                    if n < irq {
                        let k = choose|k: int| 0 <= k < before.len() && #[trigger] before[k] == n;
                        assert(found@[k] == n);
                    } else {
                        assert(found@[before.len() as int] == n);
                    }
                }
            }
            irq += 1;
        }
        found
    }

    /// Notes for each core of the zone whether it has a timer of the
    /// supervisor's own: the extension `sstc`, which the device tree names in
    /// the description of the core's instruction set. `nodes` is what the
    /// device tree says of the cores; `cpus` holds the state of each core of
    /// the platform, at the index of its number.
    ///
    /// Every core of the zone needs a description and a state.
    pub fn isa_init(&self, nodes: &Vec<CpuIsa>, cpus: &mut Vec<ArchCpu>)
        requires
            forall|cpuid: usize| #[trigger]
                self.cpu_set.spec_contains_cpu(cpuid) ==> cpuid < old(cpus)@.len() && exists|k: int|
                    0 <= k < nodes@.len() && (#[trigger] nodes@[k]).cpuid == cpuid,
        ensures
            final(cpus)@.len() == old(cpus)@.len(),
            forall|cpuid: usize|
                cpuid < old(cpus)@.len() ==> #[trigger] final(cpus)@[cpuid as int] == (ArchCpu {
                    sstc: old(cpus)@[cpuid as int].sstc || spec_core_has_sstc(self, nodes@, cpuid),
                    ..old(cpus)@[cpuid as int]
                }),
    {
        let mut cpuid: usize = 0;
        while cpuid < cpus.len()
            invariant
                0 <= cpuid <= cpus@.len(),
                cpus@.len() == old(cpus)@.len(),
                forall|id: usize| #[trigger]
                    self.cpu_set.spec_contains_cpu(id) ==> id < old(cpus)@.len() && exists|k: int|
                        0 <= k < nodes@.len() && (#[trigger] nodes@[k]).cpuid == id,
                forall|id: usize|
                    id < cpuid ==> #[trigger] cpus@[id as int] == (ArchCpu {
                        sstc: old(cpus)@[id as int].sstc || spec_core_has_sstc(self, nodes@, id),
                        ..old(cpus)@[id as int]
                    }),
                forall|id: usize|
                    cpuid <= id < cpus@.len() ==> #[trigger] cpus@[id as int] == old(cpus)@[id as int],
            decreases cpus@.len() - cpuid,
        {
            if self.cpu_set.contains_cpu(cpuid) {
                match node_of(nodes, cpuid) {
                    Some(k) => {
                        if has_sstc(nodes[k].isa.as_str()) {
                            let mut cpu = cpus[cpuid];
                            cpu.sstc = true;
                            cpus.set(cpuid, cpu);
                        }
                        assert(spec_core_has_sstc(self, nodes@, cpuid) == spec_has_sstc(
                            nodes@[k as int].isa@,
                        )) by {
                            if spec_core_has_sstc(self, nodes@, cpuid) {
                                let w = choose|w: int|
                                    0 <= w < nodes@.len() && (#[trigger] nodes@[w]).cpuid == cpuid
                                        && spec_has_sstc(nodes@[w].isa@) && forall|j: int|
                                        0 <= j < w ==> (#[trigger] nodes@[j]).cpuid != cpuid;
                                assert(w == k) by {
                                    if w < k {
                                        assert(nodes@[w].cpuid != cpuid);
                                    } else if k < w {
                                        assert(nodes@[k as int].cpuid != cpuid);
                                    }
                                }
                            }
                        }
                    },
                    None => {
                        assert(false);
                    },
                }
            }
            cpuid += 1;
        }
    }
}

} // verus!
