//! The second-stage page table of a guest: a tree of three levels in the
//! Sv39x4 format, which maps pages of 4 KiB.
//!
//! The tables lie one after the other in a pool of host memory. The root
//! comes first and has 2048 descriptors; each further table has 512. The
//! table is kept here as the words of that pool, and what it means is what a
//! walk by the hardware makes of those words.

use crate::arch::riscv64::s2pt::{
    lemma_addr_round_trip, lemma_flags_read_back, lemma_permission_makes_leaf,
    lemma_set_flags_keeps_addr, lemma_table_pointer_is_no_leaf, lemma_table_pointer_round_trip,
    spec_addr, spec_is_leaf, spec_is_present, spec_mem_flags, spec_set_addr, spec_table_pointer,
    DescriptorAttr, PageTableEntry, PHYS_ADDR_LIMIT,
};
use crate::consts::PAGE_SIZE;
use crate::memory::flags::MemFlags;
use crate::memory::mm::MemoryRegion;
use vstd::prelude::*;

verus! {

/// Number of descriptors in the root table: four pages of them, as the
/// second stage widens the guest-physical address by two bits.
pub const PT_ROOT_ENTRIES: usize = 2048;

/// Number of descriptors in a table below the root.
pub const PT_ENTRIES: usize = 512;

/// Size of the root table in bytes.
pub const PT_ROOT_SIZE: usize = 0x4000;

/// Size of a descriptor in bytes.
pub const PT_ENTRY_SIZE: usize = 8;

/// What one descriptor of the root table spans.
pub const SIZE_1G: usize = 0x4000_0000;

/// What one descriptor of a table of the middle level spans.
pub const SIZE_2M: usize = 0x20_0000;

/// First guest-physical address beyond the 41 bits that a walk translates.
pub const GPA_LIMIT: u64 = 0x200_0000_0000;

/// Index into the root table for the guest-physical address `gpa`.
pub open spec fn spec_index2(gpa: usize) -> int {
    gpa as int / SIZE_1G as int
}

/// Index into a table of the middle level for `gpa`.
pub open spec fn spec_index1(gpa: usize) -> int {
    (gpa as int / SIZE_2M as int) % PT_ENTRIES as int
}

/// Index into a table of the last level for `gpa`.
pub open spec fn spec_index0(gpa: usize) -> int {
    (gpa as int / PAGE_SIZE as int) % PT_ENTRIES as int
}

/// The table at the host-physical address `paddr` lies in the pool of `len`
/// words at `base`, behind the root.
pub open spec fn spec_in_pool(len: nat, base: usize, paddr: usize) -> bool {
    &&& base + PT_ROOT_SIZE <= paddr
    &&& (paddr - base) % PAGE_SIZE as int == 0
    &&& (paddr - base) / PT_ENTRY_SIZE as int + PT_ENTRIES <= len
}

/// Position in the pool at `base` of descriptor `index` of the table at
/// `paddr`.
pub open spec fn spec_slot(base: usize, paddr: usize, index: int) -> int {
    (paddr - base) / PT_ENTRY_SIZE as int + index
}

/// What the leaf `bits` makes of an address that lies `offset` bytes into
/// what the leaf spans: the host-physical address and the permissions.
pub open spec fn spec_leaf(bits: u64, offset: usize) -> (usize, MemFlags) {
    (
        spec_addr(bits).wrapping_add(offset),
        MemFlags { bits: spec_mem_flags(bits & DescriptorAttr::ALL) },
    )
}

/// What a walk by the hardware makes of the guest-physical address `gpa`,
/// where the words of the pool at `base` are `words`: the host-physical
/// address and the permissions, or nothing where the walk ends at a
/// descriptor that is not in use, or leaves the pool.
pub open spec fn spec_walk(words: Seq<u64>, base: usize, gpa: usize) -> Option<(usize, MemFlags)> {
    if words.len() < PT_ROOT_ENTRIES || gpa as u64 >= GPA_LIMIT {
        None
    } else {
        let top = words[spec_index2(gpa)];
        if !spec_is_present(top) {
            None
        } else if spec_is_leaf(top) {
            Some(spec_leaf(top, (gpa % SIZE_1G) as usize))
        } else if !spec_in_pool(words.len(), base, spec_addr(top)) {
            None
        } else {
            let mid = words[spec_slot(base, spec_addr(top), spec_index1(gpa))];
            if !spec_is_present(mid) {
                None
            } else if spec_is_leaf(mid) {
                Some(spec_leaf(mid, (gpa % SIZE_2M) as usize))
            } else if !spec_in_pool(words.len(), base, spec_addr(mid)) {
                None
            } else {
                let last = words[spec_slot(base, spec_addr(mid), spec_index0(gpa))];
                if spec_is_leaf(last) {
                    Some(spec_leaf(last, (gpa % PAGE_SIZE) as usize))
                } else {
                    None
                }
            }
        }
    }
}

/// Host-physical address of table `table` of the pool at `base`: the tables
/// follow the root, a page each.
pub open spec fn spec_table_addr(base: usize, table: int) -> int {
    base + PT_ROOT_SIZE + table * PAGE_SIZE
}

/// First position of table `table` in the pool.
pub open spec fn spec_table_slot(table: int) -> int {
    PT_ROOT_ENTRIES + table * PT_ENTRIES
}

/// A second-stage page table, with the pool that its tables come from.
pub struct Stage2PageTable {
    /// The descriptors of the pool: those of the root, then those of each
    /// table in the order in which the tables were taken.
    entries: Vec<PageTableEntry>,
    /// Host-physical address of the pool, and so of the root.
    base: usize,
    /// Number of tables that the pool has room for, besides the root.
    capacity: usize,
    /// Number of tables taken.
    tables: usize,
    /// For each table, the position of the descriptor that points to it.
    parents: Ghost<Seq<int>>,
    /// For each table, its level: 1 below the root, 2 below that.
    levels: Ghost<Seq<int>>,
    /// For each position, the table that its descriptor points to, or -1.
    children: Ghost<Seq<int>>,
}

impl View for Stage2PageTable {
    type V = Seq<u64>;

    /// The words of the pool, as the hardware reads them.
    closed spec fn view(&self) -> Seq<u64> {
        Seq::new(self.entries@.len(), |i: int| self.entries@[i].spec_bits())
    }
}

impl Stage2PageTable {
    /// Host-physical address of the pool, and so of the root.
    pub closed spec fn spec_base(&self) -> usize {
        self.base
    }

    /// Number of tables that the pool has room for, besides the root.
    pub closed spec fn spec_capacity(&self) -> usize {
        self.capacity
    }

    /// Number of tables taken from the pool.
    pub closed spec fn spec_tables(&self) -> usize {
        self.tables
    }

    /// What the table makes of the guest-physical address `gpa`.
    pub open spec fn spec_translate(&self, gpa: usize) -> Option<(usize, MemFlags)> {
        spec_walk(self@, self.spec_base(), gpa)
    }

    /// The level of the table that position `slot` lies in: 0 for the root.
    closed spec fn slot_level(&self, slot: int) -> int {
        if slot < PT_ROOT_ENTRIES {
            0
        } else {
            self.levels@[(slot - PT_ROOT_ENTRIES) / PT_ENTRIES as int]
        }
    }

    /// The pool lies in host memory that a descriptor can point to.
    pub open spec fn spec_pool_fits(base: usize, capacity: usize) -> bool {
        &&& base % PT_ROOT_SIZE == 0
        &&& base + PT_ROOT_SIZE + capacity * PAGE_SIZE <= usize::MAX
        &&& base + PT_ROOT_SIZE + capacity * PAGE_SIZE <= PHYS_ADDR_LIMIT
    }

    /// Each table is pointed to by the descriptor that is noted as its
    /// parent, which lies one level up.
    closed spec fn tables_ok(&self) -> bool {
        forall|t: int|
            0 <= t < self.tables ==> {
                &&& 1 <= #[trigger] self.levels@[t] <= 2
                &&& 0 <= self.parents@[t] < self.entries@.len()
                &&& self.children@[self.parents@[t]] == t
                &&& self.slot_level(self.parents@[t]) == self.levels@[t] - 1
            }
    }

    /// The descriptor at `slot` is as its level asks: in use at the last
    /// level, it is a leaf; in use above, it points to the table that is
    /// noted as its child.
    closed spec fn slot_ok(&self, slot: int) -> bool {
        let bits = self.entries@[slot].spec_bits();
        let child = self.children@[slot];
        if self.slot_level(slot) == 2 {
            child == -1 && (spec_is_present(bits) ==> spec_is_leaf(bits))
        } else if spec_is_present(bits) {
            &&& !spec_is_leaf(bits)
            &&& 0 <= child < self.tables
            &&& self.parents@[child] == slot
            &&& spec_addr(bits) == spec_table_addr(self.base, child)
        } else {
            child == -1
        }
    }

    /// The tables form a tree: each table is pointed to by one descriptor, of
    /// a table one level up; a descriptor in use above the last level points
    /// to a table of the pool; one in use at the last level is a leaf.
    pub closed spec fn inv(&self) -> bool {
        &&& Self::spec_pool_fits(self.base, self.capacity)
        &&& self.tables <= self.capacity
        &&& self.entries@.len() == PT_ROOT_ENTRIES + self.tables * PT_ENTRIES
        &&& self.parents@.len() == self.tables
        &&& self.levels@.len() == self.tables
        &&& self.children@.len() == self.entries@.len()
        &&& self.tables_ok()
        &&& forall|s: int| 0 <= s < self.entries@.len() ==> #[trigger] self.slot_ok(s)
    }

    /// A table without any mapping, whose pool lies at `base` and has room
    /// for `capacity` tables besides the root.
    pub fn new(base: usize, capacity: usize) -> (table: Self)
        requires
            Self::spec_pool_fits(base, capacity),
        ensures
            table.inv(),
            table.spec_base() == base,
            table.spec_capacity() == capacity,
            table.spec_tables() == 0,
            forall|gpa: usize| table.spec_translate(gpa).is_none(),
    {
        let mut entries: Vec<PageTableEntry> = Vec::new();
        let mut i: usize = 0;
        while i < PT_ROOT_ENTRIES
            invariant
                0 <= i <= PT_ROOT_ENTRIES,
                entries@.len() == i,
                forall|k: int| 0 <= k < i ==> (#[trigger] entries@[k]).spec_bits() == 0,
            decreases PT_ROOT_ENTRIES - i,
        {
            entries.push(PageTableEntry::empty());
            i += 1;
        }
        let table = Stage2PageTable {
            entries,
            base,
            capacity,
            tables: 0,
            parents: Ghost(Seq::empty()),
            levels: Ghost(Seq::empty()),
            children: Ghost(Seq::new(PT_ROOT_ENTRIES as nat, |s: int| -1int)),
        };
        proof {
            lemma_zero_is_unused();
            assert forall|gpa: usize| table.spec_translate(gpa).is_none() by {
                if (gpa as u64) < GPA_LIMIT {
                    assert(0 <= spec_index2(gpa) < PT_ROOT_ENTRIES);
                    assert(table@[spec_index2(gpa)] == 0);
                }
            }
        }
        table
    }

    /// Takes every mapping out of the table and gives its tables back to the
    /// pool: the root is cleared, and nothing is translated any more.
    pub fn clear(&mut self)
        requires
            old(self).inv(),
        ensures
            final(self).inv(),
            final(self).spec_base() == old(self).spec_base(),
            final(self).spec_capacity() == old(self).spec_capacity(),
            final(self).spec_tables() == 0,
            forall|gpa: usize| final(self).spec_translate(gpa).is_none(),
    {
        self.entries.truncate(PT_ROOT_ENTRIES);
        let mut i: usize = 0;
        while i < PT_ROOT_ENTRIES
            invariant
                0 <= i <= PT_ROOT_ENTRIES,
                self.entries@.len() == PT_ROOT_ENTRIES,
                forall|k: int| 0 <= k < i ==> (#[trigger] self.entries@[k]).spec_bits() == 0,
                self.base == old(self).base,
                self.capacity == old(self).capacity,
            decreases PT_ROOT_ENTRIES - i,
        {
            let mut entry = self.entries[i];
            entry.clear();
            self.entries.set(i, entry);
            i += 1;
        }
        self.tables = 0;
        self.parents = Ghost(Seq::empty());
        self.levels = Ghost(Seq::empty());
        self.children = Ghost(Seq::new(PT_ROOT_ENTRIES as nat, |s: int| -1int));
        proof {
            lemma_zero_is_unused();
            assert forall|s: int| 0 <= s < self.entries@.len() implies #[trigger] self.slot_ok(
                s,
            ) by {}
            assert forall|gpa: usize| self.spec_translate(gpa).is_none() by {
                if (gpa as u64) < GPA_LIMIT {
                    assert(0 <= spec_index2(gpa) < PT_ROOT_ENTRIES);
                    assert(self@[spec_index2(gpa)] == 0);
                }
            }
        }
    }

    /// Tells whether a pool at `base` with room for `capacity` tables lies
    /// in host memory that a descriptor can point to.
    pub fn pool_fits(base: usize, capacity: usize) -> (ok: bool)
        ensures
            ok == Self::spec_pool_fits(base, capacity),
    {
        if base % PT_ROOT_SIZE != 0 {
            return false;
        }
        if capacity > (usize::MAX - PT_ROOT_SIZE) / PAGE_SIZE {
            return false;
        }
        let size = PT_ROOT_SIZE + capacity * PAGE_SIZE;
        base <= usize::MAX - size && (base + size) as u64 <= PHYS_ADDR_LIMIT
    }

    /// Host-physical address of the root table: what `hgatp` is to hold.
    pub fn root_paddr(&self) -> (paddr: usize)
        ensures
            paddr == self.spec_base(),
    {
        self.base
    }

    /// Number of tables that the pool has room for, besides the root.
    pub fn capacity(&self) -> (capacity: usize)
        ensures
            capacity == self.spec_capacity(),
    {
        self.capacity
    }

    /// Number of tables that the pool still has room for.
    pub fn free_tables(&self) -> (free: usize)
        requires
            self.inv(),
        ensures
            free == self.spec_capacity() - self.spec_tables(),
    {
        self.capacity - self.tables
    }

    /// Number of words in the pool that are in use.
    pub fn len(&self) -> (len: usize)
        ensures
            len == self@.len(),
    {
        self.entries.len()
    }

    /// Word `index` of the pool, for the copy that the hardware walks. Its
    /// host-physical address is the base of the pool and eight times `index`.
    pub fn word(&self, index: usize) -> (bits: u64)
        requires
            index < self@.len(),
        ensures
            bits == self@[index as int],
    {
        self.entries[index].bits()
    }

    /// Position in the pool of descriptor `index` of the table at `paddr`,
    /// if that table lies in the pool.
    fn slot(&self, paddr: usize, index: usize) -> (slot: Option<usize>)
        requires
            index < PT_ENTRIES,
        ensures
            slot is Some == spec_in_pool(self@.len(), self.base, paddr),
            slot is Some ==> slot.unwrap() == spec_slot(self.base, paddr, index as int)
                && slot.unwrap() < self@.len(),
    {
        if paddr < self.base || paddr - self.base < PT_ROOT_SIZE {
            return None;
        }
        let offset = paddr - self.base;
        if offset % PAGE_SIZE != 0 {
            return None;
        }
        let first = offset / PT_ENTRY_SIZE;
        if first > self.entries.len() || self.entries.len() - first < PT_ENTRIES {
            return None;
        }
        Some(first + index)
    }

    /// Translates the guest-physical address `gpa` as the hardware does:
    /// gives the host-physical address behind it and the permissions, or
    /// nothing where it is not mapped.
    pub fn query(&self, gpa: usize) -> (found: Option<(usize, MemFlags)>)
        ensures
            found == self.spec_translate(gpa),
    {
        if self.entries.len() < PT_ROOT_ENTRIES || gpa as u64 >= GPA_LIMIT {
            return None;
        }
        let top = self.entries[gpa / SIZE_1G];
        if !top.is_present() {
            return None;
        }
        if top.is_huge() {
            return Some((top.addr().wrapping_add(gpa % SIZE_1G), top.flags()));
        }
        let mid = match self.slot(top.addr(), (gpa / SIZE_2M) % PT_ENTRIES) {
            Some(slot) => self.entries[slot],
            None => {
                return None;
            },
        };
        if !mid.is_present() {
            return None;
        }
        if mid.is_huge() {
            return Some((mid.addr().wrapping_add(gpa % SIZE_2M), mid.flags()));
        }
        let last = match self.slot(mid.addr(), (gpa / PAGE_SIZE) % PT_ENTRIES) {
            Some(slot) => self.entries[slot],
            None => {
                return None;
            },
        };
        if last.is_huge() {
            Some((last.addr().wrapping_add(gpa % PAGE_SIZE), last.flags()))
        } else {
            None
        }
    }
}

impl Stage2PageTable {
    /// What the tree makes of `gpa`, going by the tables that the positions
    /// point to.
    #[verifier::opaque]
    closed spec fn tree_walk(&self, gpa: usize) -> Option<(usize, MemFlags)> {
        if gpa as u64 >= GPA_LIMIT {
            None
        } else {
            let mid = self.children@[spec_index2(gpa)];
            if mid < 0 {
                None
            } else {
                let last = self.children@[spec_table_slot(mid) + spec_index1(gpa)];
                if last < 0 {
                    None
                } else {
                    let bits = self.entries@[spec_table_slot(last) + spec_index0(
                        gpa,
                    )].spec_bits();
                    if spec_is_present(bits) {
                        Some(spec_leaf(bits, (gpa % PAGE_SIZE) as usize))
                    } else {
                        None
                    }
                }
            }
        }
    }

    /// Number of tables that are yet to be taken before the page of `gpa`
    /// can be mapped.
    #[verifier::opaque]
    closed spec fn missing(&self, gpa: usize) -> int {
        let mid = self.children@[spec_index2(gpa)];
        if gpa as u64 >= GPA_LIMIT {
            0
        } else if mid < 0 {
            2
        } else if self.children@[spec_table_slot(mid) + spec_index1(gpa)] < 0 {
            1
        } else {
            0
        }
    }

    /// The tables on the way to `gpa` are of the pool and of the right
    /// levels.
    proof fn lemma_path(&self, gpa: usize)
        requires
            self.inv(),
            (gpa as u64) < GPA_LIMIT,
        ensures
            0 <= spec_index2(gpa) < PT_ROOT_ENTRIES,
            0 <= spec_index1(gpa) < PT_ENTRIES,
            0 <= spec_index0(gpa) < PT_ENTRIES,
            self.slot_level(spec_index2(gpa)) == 0,
            ({
                let mid = self.children@[spec_index2(gpa)];
                mid >= 0 ==> {
                    let slot1 = spec_table_slot(mid) + spec_index1(gpa);
                    let last = self.children@[slot1];
                    &&& mid < self.tables
                    &&& self.levels@[mid] == 1
                    &&& self.parents@[mid] == spec_index2(gpa)
                    &&& PT_ROOT_ENTRIES <= slot1 < self.entries@.len()
                    &&& self.slot_level(slot1) == 1
                    &&& last >= 0 ==> {
                        let slot0 = spec_table_slot(last) + spec_index0(gpa);
                        &&& last < self.tables
                        &&& self.levels@[last] == 2
                        &&& self.parents@[last] == slot1
                        &&& PT_ROOT_ENTRIES <= slot0 < self.entries@.len()
                        &&& self.slot_level(slot0) == 2
                    }
                }
            }),
    {
        let slot2 = spec_index2(gpa);
        assert(self.slot_ok(slot2));
        let mid = self.children@[slot2];
        if mid >= 0 {
            let slot1 = spec_table_slot(mid) + spec_index1(gpa);
            assert((slot1 - PT_ROOT_ENTRIES) / PT_ENTRIES as int == mid);
            assert(self.slot_ok(slot1));
            let last = self.children@[slot1];
            if last >= 0 {
                let slot0 = spec_table_slot(last) + spec_index0(gpa);
                assert((slot0 - PT_ROOT_ENTRIES) / PT_ENTRIES as int == last);
                assert(self.slot_ok(slot0));
            }
        }
    }

    /// A walk by the hardware finds what the tree holds.
    proof fn lemma_tree_walk(&self, gpa: usize)
        requires
            self.inv(),
        ensures
            self.spec_translate(gpa) == self.tree_walk(gpa),
    {
        reveal(Stage2PageTable::tree_walk);
        if (gpa as u64) < GPA_LIMIT {
            self.lemma_path(gpa);
            let slot2 = spec_index2(gpa);
            let top = self.entries@[slot2].spec_bits();
            assert(self@[slot2] == top);
            assert(self.slot_ok(slot2));
            let mid = self.children@[slot2];
            if mid >= 0 {
                assert(spec_is_present(top) && !spec_is_leaf(top));
                assert(spec_addr(top) == spec_table_addr(self.base, mid));
                assert(spec_in_pool(self@.len(), self.base, spec_addr(top)));
                let slot1 = spec_table_slot(mid) + spec_index1(gpa);
                assert(spec_slot(self.base, spec_addr(top), spec_index1(gpa)) == slot1);
                let middle = self.entries@[slot1].spec_bits();
                assert(self@[slot1] == middle);
                assert(self.slot_ok(slot1));
                let last = self.children@[slot1];
                if last >= 0 {
                    assert(spec_is_present(middle) && !spec_is_leaf(middle));
                    assert(spec_addr(middle) == spec_table_addr(self.base, last));
                    assert(spec_in_pool(self@.len(), self.base, spec_addr(middle)));
                    let slot0 = spec_table_slot(last) + spec_index0(gpa);
                    assert(spec_slot(self.base, spec_addr(middle), spec_index0(gpa)) == slot0);
                    assert(self@[slot0] == self.entries@[slot0].spec_bits());
                    assert(self.slot_ok(slot0));
                } else {
                    assert(!spec_is_present(middle));
                }
            } else {
                assert(!spec_is_present(top));
            }
        }
    }

    /// The table that the descriptor at `slot` points to, if it is in use.
    fn table_at(&self, slot: usize) -> (table: Option<usize>)
        requires
            self.inv(),
            slot < self.entries@.len(),
            self.slot_level(slot as int) <= 1,
        ensures
            match table {
                Some(table) => table == self.children@[slot as int] && table < self.tables,
                None => self.children@[slot as int] == -1,
            },
    {
        let entry = self.entries[slot];
        assert(self.slot_ok(slot as int));
        if entry.is_present() {
            Some((entry.addr() - self.base - PT_ROOT_SIZE) / PAGE_SIZE)
        } else {
            None
        }
    }

    /// Adds `count` descriptors that are not in use to the end of the pool.
    fn push_unused(&mut self, count: usize)
        ensures
            final(self).entries@.len() == old(self).entries@.len() + count,
            forall|s: int|
                0 <= s < old(self).entries@.len() ==> (#[trigger] final(self).entries@[s]) == old(
                    self,
                ).entries@[s],
            forall|s: int|
                old(self).entries@.len() <= s < final(self).entries@.len() ==> (
                #[trigger] final(self).entries@[s]).spec_bits() == 0,
            final(self).base == old(self).base,
            final(self).capacity == old(self).capacity,
            final(self).tables == old(self).tables,
            final(self).parents == old(self).parents,
            final(self).levels == old(self).levels,
            final(self).children == old(self).children,
    {
        let mut k: usize = 0;
        while k < count
            invariant
                0 <= k <= count,
                self.entries@.len() == old(self).entries@.len() + k,
                forall|s: int|
                    0 <= s < old(self).entries@.len() ==> (#[trigger] self.entries@[s]) == old(
                        self,
                    ).entries@[s],
                forall|s: int|
                    old(self).entries@.len() <= s < self.entries@.len() ==> (
                    #[trigger] self.entries@[s]).spec_bits() == 0,
                self.base == old(self).base,
                self.capacity == old(self).capacity,
                self.tables == old(self).tables,
                self.parents == old(self).parents,
                self.levels == old(self).levels,
                self.children == old(self).children,
            decreases count - k,
        {
            self.entries.push(PageTableEntry::empty());
            k += 1;
        }
    }

    /// Takes a table from the pool, clears it, and makes the descriptor at
    /// `slot`, which is not in use, point to it.
    fn grow(&mut self, slot: usize) -> (table: usize)
        requires
            old(self).inv(),
            slot < old(self).entries@.len(),
            old(self).slot_level(slot as int) <= 1,
            old(self).children@[slot as int] < 0,
            old(self).tables < old(self).capacity,
        ensures
            final(self).inv(),
            table == old(self).tables,
            final(self).grown_from(*old(self), slot as int),
    {
        let table = self.tables;
        let paddr = self.base + PT_ROOT_SIZE + table * PAGE_SIZE;
        self.push_unused(PT_ENTRIES);
        let mut pointer = PageTableEntry::empty();
        pointer.set_table(paddr);
        self.entries.set(slot, pointer);
        self.tables = table + 1;
        self.parents = Ghost(old(self).parents@.push(slot as int));
        self.levels = Ghost(old(self).levels@.push(old(self).slot_level(slot as int) + 1));
        self.children = Ghost(
            old(self).children@.update(slot as int, table as int) + Seq::new(
                PT_ENTRIES as nat,
                |s: int| -1int,
            ),
        );
        proof {
            assert(self.grown_from(*old(self), slot as int));
            self.lemma_grown_inv(*old(self), slot as int);
        }
        table
    }

    /// `self` is `before` with one more table, which the descriptor at `slot`
    /// points to and which holds nothing.
    closed spec fn grown_from(&self, before: Self, slot: int) -> bool {
        &&& self.base == before.base
        &&& self.capacity == before.capacity
        &&& self.tables == before.tables + 1
        &&& self.entries@.len() == before.entries@.len() + PT_ENTRIES
        &&& forall|s: int|
            0 <= s < before.entries@.len() && s != slot ==> (#[trigger] self.entries@[s])
                == before.entries@[s]
        &&& forall|s: int|
            before.entries@.len() <= s < self.entries@.len() ==> (
            #[trigger] self.entries@[s]).spec_bits() == 0
        &&& self.entries@[slot].spec_bits() == spec_table_pointer(
            spec_table_addr(before.base, before.tables as int) as usize,
        )
        &&& self.parents@ == before.parents@.push(slot)
        &&& self.levels@ == before.levels@.push(before.slot_level(slot) + 1)
        &&& self.children@ == before.children@.update(slot, before.tables as int) + Seq::new(
            PT_ENTRIES as nat,
            |s: int| -1int,
        )
    }

    /// A table that has grown by an empty table is still a tree.
    proof fn lemma_grown_inv(&self, before: Self, slot: int)
        requires
            before.inv(),
            0 <= slot < before.entries@.len(),
            before.slot_level(slot) <= 1,
            before.children@[slot] < 0,
            before.tables < before.capacity,
            self.grown_from(before, slot),
        ensures
            self.inv(),
    {
        let table = before.tables as int;
        let paddr = spec_table_addr(before.base, table) as usize;
        lemma_zero_is_unused();
        lemma_table_pointer_is_no_leaf(paddr);
        lemma_table_pointer_round_trip(paddr);
        assert forall|s: int| 0 <= s < self.entries@.len() implies self.slot_level(s) == (if s
            < before.entries@.len() {
            before.slot_level(s)
        } else {
            before.slot_level(slot) + 1
        }) by {
            if s >= before.entries@.len() {
                assert((s - PT_ROOT_ENTRIES) / PT_ENTRIES as int == table);
            } else if s >= PT_ROOT_ENTRIES {
                assert((s - PT_ROOT_ENTRIES) / (PT_ENTRIES as int) < table);
            }
        }
        assert(self.tables_ok()) by {
            assert forall|t: int| 0 <= t < self.tables implies {
                &&& 1 <= #[trigger] self.levels@[t] <= 2
                &&& 0 <= self.parents@[t] < self.entries@.len()
                &&& self.children@[self.parents@[t]] == t
                &&& self.slot_level(self.parents@[t]) == self.levels@[t] - 1
            } by {
                if t < table {
                    let _ = before.levels@[t];
                    assert(before.children@[before.parents@[t]] == t);
                } else {
                    assert(before.slot_ok(slot));
                    if slot >= PT_ROOT_ENTRIES {
                        let _ = before.levels@[(slot - PT_ROOT_ENTRIES) / PT_ENTRIES as int];
                    }
                }
            }
        }
        assert forall|s: int| 0 <= s < self.entries@.len() implies #[trigger] self.slot_ok(s) by {
            if s < before.entries@.len() && s != slot {
                assert(before.slot_ok(s));
            }
        }
    }
}

impl Stage2PageTable {
    /// The three indices of an address name its page.
    proof fn lemma_indices(x: usize, y: usize)
        ensures
            (spec_index2(x) == spec_index2(y) && spec_index1(x) == spec_index1(y) && spec_index0(x)
                == spec_index0(y)) <==> x as int / PAGE_SIZE as int == y as int / PAGE_SIZE as int,
            x as int / SIZE_2M as int == y as int / SIZE_2M as int <==> (spec_index2(x)
                == spec_index2(y) && spec_index1(x) == spec_index1(y)),
    {
        let px = x as int / 0x1000;
        let py = y as int / 0x1000;
        assert(x as int / 0x20_0000 == px / 512);
        assert(y as int / 0x20_0000 == py / 512);
        assert(x as int / 0x4000_0000 == (px / 512) / 512);
        assert(y as int / 0x4000_0000 == (py / 512) / 512);
    }

    /// A table that has grown by an empty table translates as before, and no
    /// page is further from being mapped than before.
    proof fn lemma_grown_frame(&self, before: Self, slot: int, x: usize)
        requires
            before.inv(),
            0 <= slot < before.entries@.len(),
            before.slot_level(slot) <= 1,
            before.children@[slot] < 0,
            before.tables < before.capacity,
            self.grown_from(before, slot),
        ensures
            self.tree_walk(x) == before.tree_walk(x),
            self.missing(x) <= before.missing(x),
    {
        reveal(Stage2PageTable::tree_walk);
        reveal(Stage2PageTable::missing);
        lemma_zero_is_unused();
        if (x as u64) < GPA_LIMIT {
            before.lemma_path(x);
            let table = before.tables as int;
            let slot2 = spec_index2(x);
            let mid = before.children@[slot2];
            if slot2 == slot {
                let slot1 = spec_table_slot(table) + spec_index1(x);
                assert(self.children@[slot1] == -1);
            } else if mid >= 0 {
                let slot1 = spec_table_slot(mid) + spec_index1(x);
                let last = before.children@[slot1];
                if slot1 == slot {
                    let slot0 = spec_table_slot(table) + spec_index0(x);
                    assert(self.entries@[slot0].spec_bits() == 0);
                } else if last >= 0 {
                    let slot0 = spec_table_slot(last) + spec_index0(x);
                    assert(slot0 != slot);
                    assert(self.entries@[slot0] == before.entries@[slot0]);
                }
            }
        }
    }

    /// `self` is `before` with the leaf `leaf` at the position `slot`, where
    /// the page of `gpa` has its descriptor.
    closed spec fn leaf_set(&self, before: Self, slot: int, leaf: PageTableEntry) -> bool {
        &&& self.base == before.base
        &&& self.capacity == before.capacity
        &&& self.tables == before.tables
        &&& self.entries@ == before.entries@.update(slot, leaf)
        &&& self.parents == before.parents
        &&& self.levels == before.levels
        &&& self.children == before.children
    }

    /// A table in which a descriptor of the last level has become a leaf is
    /// still a tree.
    proof fn lemma_leaf_inv(&self, before: Self, slot: int, leaf: PageTableEntry)
        requires
            before.inv(),
            0 <= slot < before.entries@.len(),
            before.slot_level(slot) == 2,
            spec_is_leaf(leaf.spec_bits()),
            self.leaf_set(before, slot, leaf),
        ensures
            self.inv(),
    {
        assert forall|s: int| 0 <= s < self.entries@.len() implies self.slot_level(s)
            == before.slot_level(s) by {}
        assert(self.tables_ok()) by {
            assert forall|t: int| 0 <= t < self.tables implies {
                &&& 1 <= #[trigger] self.levels@[t] <= 2
                &&& 0 <= self.parents@[t] < self.entries@.len()
                &&& self.children@[self.parents@[t]] == t
                &&& self.slot_level(self.parents@[t]) == self.levels@[t] - 1
            } by {
                let _ = before.levels@[t];
            }
        }
        assert forall|s: int| 0 <= s < self.entries@.len() implies #[trigger] self.slot_ok(s) by {
            assert(before.slot_ok(s));
        }
    }

    /// Where the page of `gpa` has got the leaf `leaf`, the addresses of that
    /// page are translated by it, and all others as before.
    proof fn lemma_leaf_frame(&self, before: Self, gpa: usize, leaf: PageTableEntry, x: usize)
        requires
            before.inv(),
            (gpa as u64) < GPA_LIMIT,
            before.missing(gpa) == 0,
            spec_is_leaf(leaf.spec_bits()),
            self.leaf_set(
                before,
                spec_table_slot(
                    before.children@[spec_table_slot(before.children@[spec_index2(gpa)])
                        + spec_index1(gpa)],
                ) + spec_index0(gpa),
                leaf,
            ),
        ensures
            self.missing(x) == before.missing(x),
            self.tree_walk(x) == if (x as u64) < GPA_LIMIT && x as int / PAGE_SIZE as int
                == gpa as int / PAGE_SIZE as int {
                Some(spec_leaf(leaf.spec_bits(), (x % PAGE_SIZE) as usize))
            } else {
                before.tree_walk(x)
            },
    {
        reveal(Stage2PageTable::tree_walk);
        reveal(Stage2PageTable::missing);
        before.lemma_path(gpa);
        Self::lemma_indices(x, gpa);
        if (x as u64) < GPA_LIMIT {
            before.lemma_path(x);
            let mid = before.children@[spec_index2(x)];
            if mid >= 0 {
                let slot1 = spec_table_slot(mid) + spec_index1(x);
                let last = before.children@[slot1];
                if last >= 0 {
                    let slot0 = spec_table_slot(last) + spec_index0(x);
                    let gmid = before.children@[spec_index2(gpa)];
                    let gslot1 = spec_table_slot(gmid) + spec_index1(gpa);
                    let glast = before.children@[gslot1];
                    let gslot0 = spec_table_slot(glast) + spec_index0(gpa);
                    if slot0 == gslot0 {
                        assert(last == glast && spec_index0(x) == spec_index0(gpa));
                        assert(slot1 == gslot1);
                        assert(mid == gmid && spec_index1(x) == spec_index1(gpa));
                        assert(spec_index2(x) == spec_index2(gpa));
                    } else {
                        assert(self.entries@[slot0] == before.entries@[slot0]);
                    }
                    lemma_leaf_is_present(leaf.spec_bits());
                }
            }
        }
    }
}

/// A leaf is a descriptor in use.
proof fn lemma_leaf_is_present(bits: u64)
    requires
        spec_is_leaf(bits),
    ensures
        spec_is_present(bits),
{
}

/// The permissions that a leaf made for `flags` grants: those of read, write
/// and execute that `flags` holds, and access from user level, which every
/// leaf of a second-stage table grants.
pub open spec fn spec_granted(flags: MemFlags) -> MemFlags {
    MemFlags {
        bits: (flags.bits & (MemFlags::READ | MemFlags::WRITE | MemFlags::EXECUTE))
            | MemFlags::USER,
    }
}

/// `flags` holds at least one of read, write and execute: a descriptor
/// without any of them would not be a leaf.
pub open spec fn spec_grants_access(flags: MemFlags) -> bool {
    flags.bits & (MemFlags::READ | MemFlags::WRITE | MemFlags::EXECUTE) != 0
}

impl Stage2PageTable {
    /// How far the page of `x` is from being mapped, by the tables on the
    /// way to `gpa`.
    proof fn lemma_missing(&self, gpa: usize, x: usize)
        requires
            (gpa as u64) < GPA_LIMIT,
        ensures
            self.missing(gpa) == (if self.children@[spec_index2(gpa)] < 0 {
                2int
            } else if self.children@[spec_table_slot(self.children@[spec_index2(gpa)])
                + spec_index1(gpa)] < 0 {
                1int
            } else {
                0int
            }),
            0 <= self.missing(x) <= 2,
            x as int / SIZE_1G as int == gpa as int / SIZE_1G as int && self.missing(gpa) <= 1
                ==> self.missing(x) <= 1,
            x as int / SIZE_2M as int == gpa as int / SIZE_2M as int && self.missing(gpa) == 0
                ==> self.missing(x) == 0,
    {
        reveal(Stage2PageTable::missing);
        Self::lemma_indices(x, gpa);
    }

    /// Where the whole way to the page of `gpa` is there and the page is not
    /// mapped, its descriptor is not in use.
    proof fn lemma_unmapped(&self, gpa: usize)
        requires
            self.inv(),
            (gpa as u64) < GPA_LIMIT,
            self.missing(gpa) == 0,
            self.tree_walk(gpa) is None,
        ensures
            ({
                let mid = self.children@[spec_index2(gpa)];
                let last = self.children@[spec_table_slot(mid) + spec_index1(gpa)];
                let slot0 = spec_table_slot(last) + spec_index0(gpa);
                &&& 0 <= mid < self.tables
                &&& 0 <= last < self.tables
                &&& PT_ROOT_ENTRIES <= slot0 < self.entries@.len()
                &&& self.slot_level(slot0) == 2
                &&& !spec_is_present(self.entries@[slot0].spec_bits())
            }),
    {
        reveal(Stage2PageTable::missing);
        reveal(Stage2PageTable::tree_walk);
        self.lemma_path(gpa);
    }

    /// The table that the descriptor at `slot` points to. Where the
    /// descriptor is not in use, a table is taken from the pool first.
    fn next_table(&mut self, slot: usize) -> (table: usize)
        requires
            old(self).inv(),
            slot < old(self).entries@.len(),
            old(self).slot_level(slot as int) <= 1,
            old(self).children@[slot as int] < 0 ==> old(self).tables < old(self).capacity,
        ensures
            final(self).inv(),
            final(self).base == old(self).base,
            final(self).capacity == old(self).capacity,
            final(self).children@[slot as int] == table,
            table < final(self).tables,
            final(self).tables == old(self).tables + (if old(self).children@[slot as int] < 0 {
                1int
            } else {
                0int
            }),
            table == (if old(self).children@[slot as int] < 0 {
                old(self).tables as int
            } else {
                old(self).children@[slot as int]
            }),
            final(self).entries@.len() >= old(self).entries@.len(),
            forall|s: int|
                old(self).entries@.len() <= s < final(self).entries@.len() ==> (
                #[trigger] final(self).children@[s]) == -1,
            forall|s: int|
                0 <= s < old(self).entries@.len() && s != slot ==> (#[trigger] final(self).children@[s]) == old(self).children@[s],
            forall|s: int|
                0 <= s < old(self).entries@.len() ==> (#[trigger] final(self).slot_level(s)) == old(self).slot_level(s),
            forall|x: usize| #[trigger] final(self).tree_walk(x) == old(self).tree_walk(x),
            forall|x: usize| #[trigger] final(self).missing(x) <= old(self).missing(x),
    {
        match self.table_at(slot) {
            Some(table) => table,
            None => {
                let table = self.grow(slot);
                proof {
                    assert forall|x: usize|
                        #[trigger] self.tree_walk(x) == old(self).tree_walk(x) by {
                        self.lemma_grown_frame(*old(self), slot as int, x);
                    }
                    assert forall|x: usize| #[trigger] self.missing(x) <= old(self).missing(x) by {
                        self.lemma_grown_frame(*old(self), slot as int, x);
                    }
                    assert forall|s: int| 0 <= s < old(self).entries@.len() implies (#[trigger] self.slot_level(s)) == old(self).slot_level(s) by {
                        if s >= PT_ROOT_ENTRIES {
                            assert((s - PT_ROOT_ENTRIES) / (PT_ENTRIES as int) < old(self).tables);
                        }
                    }
                }
                table
            },
        }
    }

    /// Writes the leaf for the page at `gpa`, whose descriptor lies in a
    /// table that is there and is not in use.
    fn set_leaf(&mut self, gpa: usize, hpa: usize, flags: MemFlags)
        requires
            old(self).inv(),
            gpa % PAGE_SIZE == 0,
            (gpa as u64) < GPA_LIMIT,
            hpa % PAGE_SIZE == 0,
            hpa + PAGE_SIZE <= PHYS_ADDR_LIMIT,
            hpa + PAGE_SIZE <= usize::MAX,
            spec_grants_access(flags),
            old(self).tree_walk(gpa) is None,
            old(self).missing(gpa) == 0,
        ensures
            final(self).inv(),
            final(self).base == old(self).base,
            final(self).capacity == old(self).capacity,
            final(self).tables == old(self).tables,
            forall|x: usize|
                #[trigger] final(self).tree_walk(x) == (if (x as u64) < GPA_LIMIT && x as int
                    / PAGE_SIZE as int == gpa as int / PAGE_SIZE as int {
                    Some(((hpa + x % PAGE_SIZE) as usize, spec_granted(flags)))
                } else {
                    old(self).tree_walk(x)
                }),
            forall|x: usize| #[trigger] final(self).missing(x) == old(self).missing(x),
    {
        proof {
            old(self).lemma_unmapped(gpa);
        }
        let mid = match self.table_at(gpa / SIZE_1G) {
            Some(table) => table,
            None => {
                return ;
            },
        };
        let slot1 = PT_ROOT_ENTRIES + mid * PT_ENTRIES + (gpa / SIZE_2M) % PT_ENTRIES;
        proof {
            old(self).lemma_path(gpa);
        }
        let last = match self.table_at(slot1) {
            Some(table) => table,
            None => {
                return ;
            },
        };
        let slot0 = PT_ROOT_ENTRIES + last * PT_ENTRIES + (gpa / PAGE_SIZE) % PT_ENTRIES;
        let mut leaf = PageTableEntry::empty();
        leaf.set_addr(hpa);
        leaf.set_flags(flags);
        self.entries.set(slot0, leaf);
        proof {
            lemma_addr_round_trip(0, hpa);
            lemma_set_flags_keeps_addr(spec_set_addr(0, hpa), flags);
            lemma_permission_makes_leaf(spec_set_addr(0, hpa), flags);
            lemma_flags_read_back(flags);
            assert(self.leaf_set(*old(self), slot0 as int, leaf));
            self.lemma_leaf_inv(*old(self), slot0 as int, leaf);
            assert forall|x: usize|
                #[trigger] self.tree_walk(x) == (if (x as u64) < GPA_LIMIT && x as int
                    / PAGE_SIZE as int == gpa as int / PAGE_SIZE as int {
                    Some(((hpa + x % PAGE_SIZE) as usize, spec_granted(flags)))
                } else {
                    old(self).tree_walk(x)
                }) by {
                self.lemma_leaf_frame(*old(self), gpa, leaf, x);
            }
            assert forall|x: usize| #[trigger] self.missing(x) == old(self).missing(x) by {
                self.lemma_leaf_frame(*old(self), gpa, leaf, x);
            }
        }
    }

    /// Maps the page at `gpa` to the page at `hpa`. The page is not mapped
    /// yet, and the pool has the tables that are missing on the way to it.
    fn map_page(&mut self, gpa: usize, hpa: usize, flags: MemFlags)
        requires
            old(self).inv(),
            gpa % PAGE_SIZE == 0,
            (gpa as u64) < GPA_LIMIT,
            hpa % PAGE_SIZE == 0,
            hpa + PAGE_SIZE <= PHYS_ADDR_LIMIT,
            hpa + PAGE_SIZE <= usize::MAX,
            spec_grants_access(flags),
            old(self).tree_walk(gpa) is None,
            old(self).missing(gpa) <= old(self).capacity - old(self).tables,
        ensures
            final(self).inv(),
            final(self).base == old(self).base,
            final(self).capacity == old(self).capacity,
            final(self).tables == old(self).tables + old(self).missing(gpa),
            forall|x: usize|
                #[trigger] final(self).tree_walk(x) == (if (x as u64) < GPA_LIMIT && x as int
                    / PAGE_SIZE as int == gpa as int / PAGE_SIZE as int {
                    Some(((hpa + x % PAGE_SIZE) as usize, spec_granted(flags)))
                } else {
                    old(self).tree_walk(x)
                }),
            forall|x: usize| #[trigger] final(self).missing(x) <= old(self).missing(x),
            final(self).missing(gpa) == 0,
    {
        proof {
            old(self).lemma_path(gpa);
            old(self).lemma_missing(gpa, gpa);
        }
        let slot2 = gpa / SIZE_1G;
        let mid = self.next_table(slot2);
        let ghost first = *self;
        proof {
            first.lemma_path(gpa);
            first.lemma_missing(gpa, gpa);
        }
        let slot1 = PT_ROOT_ENTRIES + mid * PT_ENTRIES + (gpa / SIZE_2M) % PT_ENTRIES;
        proof {
            if old(self).children@[slot2 as int] < 0 {
                assert(mid == old(self).tables);
                assert(slot1 >= old(self).entries@.len());
                assert(first.children@[slot1 as int] == -1);
            } else {
                assert(mid == old(self).children@[slot2 as int]);
                assert(first.children@[slot1 as int] == old(self).children@[slot1 as int]);
            }
        }
        let last = self.next_table(slot1);
        proof {
            self.lemma_path(gpa);
            self.lemma_missing(gpa, gpa);
        }
        self.set_leaf(gpa, hpa, flags);
    }
}

/// The number of tables that mapping `size` bytes from `start` can take at
/// most: one of the last level for every 2 MiB that the bytes touch, and one
/// of the middle level for every 1 GiB.
pub open spec fn spec_table_bound(start: usize, size: usize) -> int {
    if size == 0 {
        0
    } else {
        ((start + size - 1) / SIZE_2M as int - start as int / SIZE_2M as int + 1) + ((start + size
            - 1) / SIZE_1G as int - start as int / SIZE_1G as int + 1)
    }
}

/// Computes the number of tables that mapping `size` bytes from `start` can
/// take at most.
pub fn table_bound(start: usize, size: usize) -> (bound: usize)
    requires
        start + size <= usize::MAX,
    ensures
        bound == spec_table_bound(start, size),
{
    if size == 0 {
        0
    } else {
        let last = start + (size - 1);
        (last / SIZE_2M - start / SIZE_2M + 1) + (last / SIZE_1G - start / SIZE_1G + 1)
    }
}

/// The number of tables that the pages from `cur` to `end` can still take.
#[verifier::opaque]
spec fn spec_credit(cur: usize, end: usize) -> int {
    ((end - 1) / SIZE_2M as int - cur as int / SIZE_2M as int + 1) + ((end - 1) / SIZE_1G as int
        - cur as int / SIZE_1G as int + 1)
}

/// The tables that a range can take are those that the bound counts.
proof fn lemma_credit_start(start: usize, size: usize)
    requires
        size > 0,
        start + size <= usize::MAX,
    ensures
        spec_credit(start, (start + size) as usize) == spec_table_bound(start, size),
{
    reveal(spec_credit);
}

/// With each page, the tables that the rest can take go down by those that
/// the next page can need anew.
proof fn lemma_credit_step(cur: usize, next: usize, end: usize)
    requires
        cur % PAGE_SIZE == 0,
        end % PAGE_SIZE == 0,
        next == cur + PAGE_SIZE,
        cur < end,
    ensures
        spec_credit(cur, end) >= 2,
        next < end ==> spec_credit(next, end) <= spec_credit(cur, end) - (if next as int
            / SIZE_2M as int == cur as int / SIZE_2M as int {
            0int
        } else if next as int / SIZE_1G as int == cur as int / SIZE_1G as int {
            1int
        } else {
            2int
        }),
{
    reveal(spec_credit);
    let c = cur as int / 0x1000;
    let e = (end - 1) / 0x1000;
    assert(cur as int / 0x20_0000 == c / 512);
    assert(next as int / 0x20_0000 == (c + 1) / 512);
    assert(cur as int / 0x4000_0000 == (c / 512) / 512);
    assert(next as int / 0x4000_0000 == ((c + 1) / 512) / 512);
    assert((end - 1) / 0x20_0000 == e / 512);
    assert((end - 1) / 0x4000_0000 == (e / 512) / 512);
}

impl Stage2PageTable {
    /// Maps the pages of `region`, none of which is mapped yet. The pool has
    /// room for the tables that the region can take at most.
    pub fn map(&mut self, region: &MemoryRegion)
        requires
            old(self).inv(),
            region.wf(),
            region.start + region.size <= GPA_LIMIT,
            region.phys_start + region.size <= PHYS_ADDR_LIMIT,
            spec_grants_access(region.flags),
            forall|x: usize| region.spec_contains(x) ==> old(self).spec_translate(x) is None,
            spec_table_bound(region.start, region.size) <= old(self).spec_capacity() - old(
                self,
            ).spec_tables(),
        ensures
            final(self).inv(),
            final(self).spec_base() == old(self).spec_base(),
            final(self).spec_capacity() == old(self).spec_capacity(),
            old(self).spec_tables() <= final(self).spec_tables() <= old(self).spec_tables()
                + spec_table_bound(region.start, region.size),
            forall|x: usize|
                #[trigger] final(self).spec_translate(x) == (if region.spec_contains(x) {
                    Some((region.spec_translate(x), spec_granted(region.flags)))
                } else {
                    old(self).spec_translate(x)
                }),
    {
        let start = region.start;
        let end = region.start + region.size;
        let phys = region.phys_start;
        let flags = region.flags;
        let ghost bound = spec_table_bound(region.start, region.size);
        let mut cur = start;
        proof {
            if start < end {
                old(self).lemma_missing(start, start);
                lemma_credit_start(region.start, region.size);
            }
            assert forall|x: usize| start <= x < end implies #[trigger] old(self).tree_walk(
                x,
            ) is None by {
                old(self).lemma_tree_walk(x);
                assert(region.spec_contains(x));
            }
        }
        while cur < end
            invariant
                self.inv(),
                old(self).inv(),
                self.base == old(self).base,
                self.capacity == old(self).capacity,
                start <= cur <= end,
                end <= GPA_LIMIT,
                end <= usize::MAX,
                phys + (end - start) <= PHYS_ADDR_LIMIT,
                phys + (end - start) <= usize::MAX,
                start % PAGE_SIZE == 0,
                cur % PAGE_SIZE == 0,
                end % PAGE_SIZE == 0,
                phys % PAGE_SIZE == 0,
                spec_grants_access(flags),
                bound <= old(self).capacity - old(self).tables,
                old(self).tables <= self.tables <= old(self).tables + bound,
                cur < end ==> old(self).tables + bound - self.tables + 2 - self.missing(cur)
                    >= spec_credit(cur, end),
                forall|x: usize| start <= x < end ==> #[trigger] old(self).tree_walk(x) is None,
                forall|x: usize|
                    #[trigger] self.tree_walk(x) == (if start <= x < cur {
                        Some(((phys + (x - start)) as usize, spec_granted(flags)))
                    } else {
                        old(self).tree_walk(x)
                    }),
            decreases end - cur,
        {
            let ghost before = *self;
            proof {
                before.lemma_missing(cur, cur);
                lemma_credit_step(cur, (cur + PAGE_SIZE) as usize, end);
                assert(before.tree_walk(cur) == old(self).tree_walk(cur));
            }
            self.map_page(cur, phys + (cur - start), flags);
            let next = cur + PAGE_SIZE;
            proof {
                self.lemma_missing(cur, next);
                lemma_credit_step(cur, next, end);
                assert forall|x: usize|
                    #[trigger] self.tree_walk(x) == (if start <= x < next {
                        Some(((phys + (x - start)) as usize, spec_granted(flags)))
                    } else {
                        old(self).tree_walk(x)
                    }) by {
                    assert(before.tree_walk(x) == (if start <= x < cur {
                        Some(((phys + (x - start)) as usize, spec_granted(flags)))
                    } else {
                        old(self).tree_walk(x)
                    }));
                    if x as int / PAGE_SIZE as int == cur as int / PAGE_SIZE as int {
                        assert(cur <= x < next);
                        assert(x % PAGE_SIZE == x - cur);
                    }
                }
            }
            cur = next;
        }
        proof {
            assert forall|x: usize|
                #[trigger] self.spec_translate(x) == (if region.spec_contains(x) {
                    Some((region.spec_translate(x), spec_granted(region.flags)))
                } else {
                    old(self).spec_translate(x)
                }) by {
                self.lemma_tree_walk(x);
                old(self).lemma_tree_walk(x);
                let _ = self.tree_walk(x);
            }
        }
    }
}

/// The word zero is a descriptor that is not in use.
proof fn lemma_zero_is_unused()
    ensures
        !spec_is_present(0),
        !spec_is_leaf(0),
{
    assert(0u64 & 1 == 0) by (bit_vector);
}

} // verus!
