//! The memory of one guest: regions of guest-physical addresses, each with
//! the host memory behind it and its permissions.

use crate::arch::riscv64::paging::{
    spec_grants_access, spec_granted, spec_table_bound, table_bound, Stage2PageTable, GPA_LIMIT,
};
use crate::arch::riscv64::s2pt::PHYS_ADDR_LIMIT;
use crate::consts::PAGE_SIZE;
use crate::error::{HvError, HvResult};
use crate::memory::addr::{
    align_down, align_up, spec_align_down, spec_align_up, spec_is_aligned, GuestPhysAddr,
    HostPhysAddr,
};
use crate::memory::flags::MemFlags;
use vstd::prelude::*;

verus! {

/// A range of guest-physical addresses that is mapped to host memory at a
/// fixed offset, with one set of permissions.
#[derive(Clone, Copy, Debug, PartialEq, Eq, Structural)]
pub struct MemoryRegion {
    /// First guest-physical address.
    pub start: GuestPhysAddr,
    /// The host-physical address behind `start`.
    pub phys_start: HostPhysAddr,
    /// Number of bytes.
    pub size: usize,
    /// What the guest may do with the memory.
    pub flags: MemFlags,
}

impl MemoryRegion {
    /// The region is made of whole pages and lies in the address space, on
    /// the guest's side and on the host's.
    pub open spec fn wf(&self) -> bool {
        &&& spec_is_aligned(self.start)
        &&& spec_is_aligned(self.phys_start)
        &&& spec_is_aligned(self.size)
        &&& self.start + self.size <= usize::MAX
        &&& self.phys_start + self.size <= usize::MAX
    }

    /// The region holds the guest-physical address `gpa`.
    pub open spec fn spec_contains(&self, gpa: usize) -> bool {
        self.start <= gpa < self.start + self.size
    }

    /// The host-physical address behind `gpa`, an address of the region.
    pub open spec fn spec_translate(&self, gpa: usize) -> usize {
        (self.phys_start + (gpa - self.start)) as usize
    }

    /// The two regions share a guest-physical address.
    pub open spec fn spec_overlaps(&self, other: MemoryRegion) -> bool {
        self.start < other.start + other.size && other.start < self.start + self.size
    }

    /// The region of `size` bytes from `start_vaddr`, widened to whole
    /// pages, with the host memory from `start_paddr` behind it.
    pub open spec fn spec_new_with_offset_mapper(
        start_vaddr: GuestPhysAddr,
        start_paddr: HostPhysAddr,
        size: usize,
        flags: MemFlags,
    ) -> MemoryRegion {
        MemoryRegion {
            start: spec_align_down(start_vaddr),
            phys_start: spec_align_down(start_paddr),
            size: spec_align_up(size) as usize,
            flags,
        }
    }

    /// A region of that size fits into the address space once it is widened
    /// to whole pages.
    pub open spec fn spec_fits(
        start_vaddr: GuestPhysAddr,
        start_paddr: HostPhysAddr,
        size: usize,
    ) -> bool {
        &&& spec_align_down(start_vaddr) + spec_align_up(size) <= usize::MAX
        &&& spec_align_down(start_paddr) + spec_align_up(size) <= usize::MAX
    }

    /// Tells whether a region of that size fits into the address space once
    /// it is widened to whole pages.
    pub fn fits(start_vaddr: GuestPhysAddr, start_paddr: HostPhysAddr, size: usize) -> (ok: bool)
        ensures
            ok == Self::spec_fits(start_vaddr, start_paddr, size),
    {
        if size > usize::MAX - (PAGE_SIZE - 1) {
            return false;
        }
        let size = align_up(size);
        align_down(start_vaddr) <= usize::MAX - size && align_down(start_paddr) <= usize::MAX
            - size
    }

    /// Makes the region of `size` bytes from `start_vaddr`, with the host
    /// memory from `start_paddr` behind it: the start is moved down to a page
    /// boundary on either side, and the size up to whole pages.
    pub fn new_with_offset_mapper(
        start_vaddr: GuestPhysAddr,
        start_paddr: HostPhysAddr,
        size: usize,
        flags: MemFlags,
    ) -> (region: Self)
        requires
            Self::spec_fits(start_vaddr, start_paddr, size),
        ensures
            region == Self::spec_new_with_offset_mapper(start_vaddr, start_paddr, size, flags),
            region.wf(),
    {
        MemoryRegion {
            start: align_down(start_vaddr),
            phys_start: align_down(start_paddr),
            size: align_up(size),
            flags,
        }
    }

    /// A second-stage table can map the region: the guest's addresses lie
    /// below 2^41, the host's below 2^56, and the region grants at least one
    /// of read, write and execute.
    pub open spec fn spec_is_mappable(&self) -> bool {
        &&& self.start + self.size <= GPA_LIMIT
        &&& self.phys_start + self.size <= PHYS_ADDR_LIMIT
        &&& spec_grants_access(self.flags)
    }

    /// Tells whether a second-stage table can map the region.
    pub fn is_mappable(&self) -> (ok: bool)
        requires
            self.wf(),
        ensures
            ok == self.spec_is_mappable(),
    {
        (self.start + self.size) as u64 <= GPA_LIMIT && (self.phys_start + self.size) as u64
            <= PHYS_ADDR_LIMIT && self.flags.bits & (MemFlags::READ | MemFlags::WRITE
            | MemFlags::EXECUTE) != 0
    }

    /// Tells whether the region holds the guest-physical address `gpa`.
    pub fn contains(&self, gpa: GuestPhysAddr) -> (inside: bool)
        requires
            self.wf(),
        ensures
            inside == self.spec_contains(gpa),
    {
        self.start <= gpa && gpa - self.start < self.size
    }

    /// Tells whether the two regions share a guest-physical address.
    pub fn overlaps(&self, other: &MemoryRegion) -> (shared: bool)
        requires
            self.wf(),
            other.wf(),
        ensures
            shared == self.spec_overlaps(*other),
    {
        self.start < other.start + other.size && other.start < self.start + self.size
    }
}

/// `region` shares an address with one of `regions`.
pub open spec fn spec_overlaps_any(regions: Seq<MemoryRegion>, region: MemoryRegion) -> bool {
    exists|i: int| 0 <= i < regions.len() && (#[trigger] regions[i]).spec_overlaps(region)
}

/// What `regions` make of the guest-physical address `gpa`, where they do
/// not overlap: the host-physical address behind it and the permissions of
/// the region that holds it, or nothing where none does.
pub open spec fn spec_query(regions: Seq<MemoryRegion>, gpa: usize) -> Option<(usize, MemFlags)> {
    if exists|i: int| 0 <= i < regions.len() && (#[trigger] regions[i]).spec_contains(gpa) {
        let i = choose|i: int| 0 <= i < regions.len() && (#[trigger] regions[i]).spec_contains(gpa);
        Some((regions[i].spec_translate(gpa), regions[i].flags))
    } else {
        None
    }
}

/// The number of tables that are set aside for `regions`: for each region
/// as many as it can take at most.
pub open spec fn spec_reserved(regions: Seq<MemoryRegion>) -> int
    decreases regions.len(),
{
    if regions.len() == 0 {
        0
    } else {
        spec_reserved(regions.drop_last()) + spec_table_bound(
            regions.last().start,
            regions.last().size,
        )
    }
}

/// What the second-stage table of `regions` makes of `gpa`: the
/// host-physical address that the region gives, with the permissions that a
/// leaf for the region's flags grants.
pub open spec fn spec_translation(regions: Seq<MemoryRegion>, gpa: usize) -> Option<
    (usize, MemFlags),
> {
    match spec_query(regions, gpa) {
        Some((hpa, flags)) => Some((hpa, spec_granted(flags))),
        None => None,
    }
}

/// Every region is made of whole pages that a table can map, none is empty,
/// and no two share an address: each guest-physical address has at most one
/// translation.
pub open spec fn spec_regions_wf(regions: Seq<MemoryRegion>) -> bool {
    &&& forall|i: int|
        0 <= i < regions.len() ==> (#[trigger] regions[i]).wf() && regions[i].size > 0
            && regions[i].spec_is_mappable()
    &&& forall|i: int, j: int|
        0 <= i < j < regions.len() ==> !(#[trigger] regions[i]).spec_overlaps(
            #[trigger] regions[j],
        )
}

/// The regions and the result after `region` is inserted into `regions`,
/// where the pool has room for `capacity` tables.
///
/// An empty region is accepted and changes nothing. A region that no table
/// can map, or that shares an address with one of `regions`, is refused as
/// an invalid argument. A region for which the pool cannot set aside the
/// tables that it can take at most is refused for lack of memory.
pub open spec fn spec_insert(regions: Seq<MemoryRegion>, capacity: usize, region: MemoryRegion) -> (
    Seq<MemoryRegion>,
    HvResult,
) {
    if region.size == 0 {
        (regions, Ok(()))
    } else if !region.spec_is_mappable() || spec_overlaps_any(regions, region) {
        (regions, Err(HvError::InvalidArgument))
    } else if spec_reserved(regions) + spec_table_bound(region.start, region.size) > capacity {
        (regions, Err(HvError::OutOfMemory))
    } else {
        (regions.push(region), Ok(()))
    }
}

/// The guest-physical memory of one guest: its regions, and the second-stage
/// page table that maps them.
pub struct MemorySet {
    regions: Vec<MemoryRegion>,
    pt: Stage2PageTable,
    reserved: usize,
}

impl View for MemorySet {
    type V = Seq<MemoryRegion>;

    /// The regions, in the order in which they were inserted.
    closed spec fn view(&self) -> Seq<MemoryRegion> {
        self.regions@
    }
}

impl MemorySet {
    /// The second-stage page table.
    pub closed spec fn spec_page_table(&self) -> Stage2PageTable {
        self.pt
    }

    /// Number of tables that the pool of the page table has room for.
    pub open spec fn spec_capacity(&self) -> usize {
        self.spec_page_table().spec_capacity()
    }

    /// The regions are in order, the page table is a tree that translates
    /// just what the regions say, and the tables that the regions can take
    /// are set aside in the pool.
    pub closed spec fn wf(&self) -> bool {
        &&& spec_regions_wf(self@)
        &&& self.pt.inv()
        &&& self.reserved == spec_reserved(self@)
        &&& self.pt.spec_tables() <= self.reserved <= self.pt.spec_capacity()
        &&& forall|gpa: usize| #[trigger]
            self.pt.spec_translate(gpa) == spec_translation(self@, gpa)
    }

    /// What `wf` says of the regions and of the page table.
    pub proof fn lemma_wf(&self)
        requires
            self.wf(),
        ensures
            spec_regions_wf(self@),
            self.spec_page_table().inv(),
            spec_reserved(self@) <= self.spec_capacity(),
            forall|gpa: usize| #[trigger]
                self.spec_page_table().spec_translate(gpa) == spec_translation(self@, gpa),
    {
    }

    /// Memory without any region. The pool of its page table lies at
    /// `pt_base` and has room for `pt_capacity` tables besides the root.
    pub fn new(pt_base: usize, pt_capacity: usize) -> (set: Self)
        requires
            Stage2PageTable::spec_pool_fits(pt_base, pt_capacity),
        ensures
            set@ == Seq::<MemoryRegion>::empty(),
            set.wf(),
            set.spec_capacity() == pt_capacity,
            set.spec_page_table().spec_base() == pt_base,
    {
        let set = MemorySet {
            regions: Vec::new(),
            pt: Stage2PageTable::new(pt_base, pt_capacity),
            reserved: 0,
        };
        assert forall|gpa: usize| #[trigger]
            set.pt.spec_translate(gpa) == spec_translation(set@, gpa) by {
            assert(set.pt.spec_translate(gpa).is_none());
        }
        set
    }

    /// Number of regions.
    pub fn len(&self) -> (n: usize)
        ensures
            n == self@.len(),
    {
        self.regions.len()
    }

    /// The second-stage page table, for activation.
    pub fn page_table(&self) -> (pt: &Stage2PageTable)
        ensures
            *pt == self.spec_page_table(),
    {
        &self.pt
    }

    /// Tells whether `region` shares no address with any region of the set.
    pub fn test_free_area(&self, region: &MemoryRegion) -> (free: bool)
        requires
            self.wf(),
            region.wf(),
        ensures
            free == !spec_overlaps_any(self@, *region),
    {
        let mut i: usize = 0;
        while i < self.regions.len()
            invariant
                0 <= i <= self.regions.len(),
                self.wf(),
                region.wf(),
                forall|k: int| 0 <= k < i ==> !(#[trigger] self@[k]).spec_overlaps(*region),
            decreases self.regions.len() - i,
        {
            assert(self.regions@[i as int] == self@[i as int]);
            if self.regions[i].overlaps(region) {
                return false;
            }
            i += 1;
        }
        true
    }

    /// Adds `region` to the set and maps its pages.
    ///
    /// An empty region is accepted and changes nothing. A region that no
    /// table can map, or that shares an address with one of the set, is
    /// refused as an invalid argument. A region for which the pool cannot set
    /// aside the tables that it can take at most is refused for lack of
    /// memory. A region that is refused leaves the set as it is.
    pub fn insert(&mut self, region: MemoryRegion) -> (result: HvResult)
        requires
            old(self).wf(),
            region.wf(),
        ensures
            final(self).wf(),
            result == spec_insert(old(self)@, old(self).spec_capacity(), region).1,
            final(self)@ == spec_insert(old(self)@, old(self).spec_capacity(), region).0,
            final(self).spec_capacity() == old(self).spec_capacity(),
            final(self).spec_page_table().spec_base() == old(self).spec_page_table().spec_base(),
            result is Err ==> *final(self) == *old(self),
    {
        if region.size == 0 {
            return Ok(());
        }
        if !region.is_mappable() || !self.test_free_area(&region) {
            return Err(HvError::InvalidArgument);
        }
        let bound = table_bound(region.start, region.size);
        if bound > self.pt.capacity() - self.reserved {
            return Err(HvError::OutOfMemory);
        }
        proof {
            assert forall|x: usize| region.spec_contains(x) implies self.pt.spec_translate(
                x,
            ) is None by {
                assert(self.pt.spec_translate(x) == spec_translation(self@, x));
                if exists|i: int| 0 <= i < self@.len() && (#[trigger] self@[i]).spec_contains(x) {
                    let i = choose|i: int|
                        0 <= i < self@.len() && (#[trigger] self@[i]).spec_contains(x);
                    assert(self@[i].spec_overlaps(region));
                }
            }
        }
        self.pt.map(&region);
        self.regions.push(region);
        self.reserved = self.reserved + bound;
        proof {
            let before = old(self)@;
            let after = self@;
            assert(after == before.push(region));
            assert(after.drop_last() == before);
            assert forall|i: int, j: int| 0 <= i < j < after.len() implies !(
            #[trigger] after[i]).spec_overlaps(#[trigger] after[j]) by {
                if j == before.len() {
                    assert(!before[i].spec_overlaps(region));
                }
            }
            assert forall|gpa: usize| #[trigger]
                self.pt.spec_translate(gpa) == spec_translation(after, gpa) by {
                assert(old(self).pt.spec_translate(gpa) == spec_translation(before, gpa));
                if region.spec_contains(gpa) {
                    lemma_one_region_holds(after, gpa, before.len() as int);
                } else if exists|i: int|
                    0 <= i < before.len() && (#[trigger] before[i]).spec_contains(gpa) {
                    let i = choose|i: int|
                        0 <= i < before.len() && (#[trigger] before[i]).spec_contains(gpa);
                    assert(after[i] == before[i]);
                    lemma_one_region_holds(before, gpa, i);
                    lemma_one_region_holds(after, gpa, i);
                } else {
                    assert forall|i: int| 0 <= i < after.len() implies !(
                    #[trigger] after[i]).spec_contains(gpa) by {
                        if i < before.len() {
                            assert(after[i] == before[i]);
                        }
                    }
                }
            }
        }
        Ok(())
    }

    /// Takes every region out of the set and every mapping out of the page
    /// table: the guest has no memory any more.
    pub fn clear(&mut self)
        requires
            old(self).wf(),
        ensures
            final(self).wf(),
            final(self)@ == Seq::<MemoryRegion>::empty(),
            final(self).spec_capacity() == old(self).spec_capacity(),
            final(self).spec_page_table().spec_base() == old(self).spec_page_table().spec_base(),
    {
        self.pt.clear();
        self.regions.clear();
        self.reserved = 0;
        assert forall|gpa: usize| #[trigger]
            self.pt.spec_translate(gpa) == spec_translation(self@, gpa) by {
            assert(self.pt.spec_translate(gpa).is_none());
        }
    }

    /// Translates the guest-physical address `gpa` by a walk of the page
    /// table: gives the host-physical address behind it and the permissions
    /// that the guest has there, or nothing where it is not mapped.
    pub fn query(&self, gpa: GuestPhysAddr) -> (found: Option<(HostPhysAddr, MemFlags)>)
        requires
            self.wf(),
        ensures
            found == spec_translation(self@, gpa),
            found is Some <==> exists|i: int|
                0 <= i < self@.len() && (#[trigger] self@[i]).spec_contains(gpa),
            forall|i: int|
                0 <= i < self@.len() && (#[trigger] self@[i]).spec_contains(gpa) ==> found == Some(
                    (self@[i].spec_translate(gpa), spec_granted(self@[i].flags)),
                ),
    {
        proof {
            assert(self.pt.spec_translate(gpa) == spec_translation(self@, gpa));
            assert forall|i: int|
                0 <= i < self@.len() && (#[trigger] self@[i]).spec_contains(gpa) implies spec_query(
                self@,
                gpa,
            ) == Some((self@[i].spec_translate(gpa), self@[i].flags)) by {
                lemma_one_region_holds(self@, gpa, i);
            }
        }
        self.pt.query(gpa)
    }
}

/// Where no two regions overlap, an address that region `i` holds is held by
/// no other, so region `i` gives its translation.
pub proof fn lemma_one_region_holds(regions: Seq<MemoryRegion>, gpa: usize, i: int)
    requires
        0 <= i < regions.len(),
        regions[i].spec_contains(gpa),
        forall|a: int, b: int|
            0 <= a < b < regions.len() ==> !(#[trigger] regions[a]).spec_overlaps(
                #[trigger] regions[b],
            ),
    ensures
        spec_query(regions, gpa) == Some((regions[i].spec_translate(gpa), regions[i].flags)),
        forall|j: int|
            0 <= j < regions.len() && (#[trigger] regions[j]).spec_contains(gpa) ==> j == i,
{
    assert forall|j: int| 0 <= j < regions.len() && (#[trigger] regions[j]).spec_contains(
        gpa,
    ) implies j == i by {
        if j < i {
            assert(!regions[j].spec_overlaps(regions[i]));
        } else if i < j {
            assert(!regions[i].spec_overlaps(regions[j]));
        }
    }
}

/// The guest reaches no host memory but that of its regions, and each of its
/// addresses in one way alone: what an address translates to lies in the
/// host memory of the one region that holds the address, at the same offset,
/// and an address that no region holds translates to nothing.
pub proof fn lemma_translation_stays_in_regions(regions: Seq<MemoryRegion>, gpa: usize)
    requires
        spec_regions_wf(regions),
    ensures
        match spec_translation(regions, gpa) {
            Some((hpa, flags)) => exists|i: int|
                0 <= i < regions.len() && (#[trigger] regions[i]).spec_contains(gpa)
                    && regions[i].phys_start <= hpa < regions[i].phys_start + regions[i].size
                    && hpa - regions[i].phys_start == gpa - regions[i].start && flags
                    == spec_granted(regions[i].flags),
            None => forall|i: int|
                0 <= i < regions.len() ==> !(#[trigger] regions[i]).spec_contains(gpa),
        },
{
    if exists|i: int| 0 <= i < regions.len() && (#[trigger] regions[i]).spec_contains(gpa) {
        let i = choose|i: int| 0 <= i < regions.len() && (#[trigger] regions[i]).spec_contains(gpa);
        lemma_one_region_holds(regions, gpa, i);
        assert(regions[i].wf());
    }
}

} // verus!
