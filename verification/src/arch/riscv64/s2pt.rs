//! Second-stage page-table descriptors in the Sv39x4 format, and the values
//! that activate a table on a core.
//!
//! A descriptor is one 64-bit word:
//!
//! ```text
//! |Reserved|  PPN  |RSW |Attr|
//! |  63-54 | 53-10 |9-8 |7-0 |
//! ```

use crate::bits::{get_bits, set_bits, spec_fits_bits, spec_get_bits, spec_set_bits};
use crate::memory::addr::{spec_is_aligned, HostPhysAddr};
use crate::memory::flags::MemFlags;
use vstd::prelude::*;
use vstd::std_specs::convert::FromSpecImpl;

verus! {

/// The attribute byte of a descriptor, one bit per attribute.
#[derive(Clone, Copy, Debug, PartialEq, Eq, Structural)]
pub struct DescriptorAttr {
    /// The attributes as a bit pattern.
    pub bits: u64,
}

impl DescriptorAttr {
    /// The descriptor is in use.
    pub const VALID: u64 = 0x1;

    /// Reads are allowed. With none of `READABLE`, `WRITABLE` and `EXECUTABLE`,
    /// a valid descriptor points to the table of the next level.
    pub const READABLE: u64 = 0x2;

    /// Writes are allowed.
    pub const WRITABLE: u64 = 0x4;

    /// Instruction fetches are allowed.
    pub const EXECUTABLE: u64 = 0x8;

    /// Accesses from user level are allowed.
    pub const USER: u64 = 0x10;

    /// The mapping exists in every address space.
    pub const GLOBAL: u64 = 0x20;

    /// The page has been accessed.
    pub const ACCESSED: u64 = 0x40;

    /// The page has been written.
    pub const DIRTY: u64 = 0x80;

    /// Every attribute there is: the low byte.
    pub const ALL: u64 = 0xff;

    /// Every attribute of `other` is in `self`.
    pub open spec fn spec_contains(&self, other: u64) -> bool {
        self.bits & other == other
    }

    /// The set without any attribute.
    pub fn empty() -> (attr: Self)
        ensures
            attr.bits == 0,
    {
        DescriptorAttr { bits: 0 }
    }

    /// The attributes of `bits`; bits above the attribute byte are dropped.
    pub fn from_bits_truncate(bits: u64) -> (attr: Self)
        ensures
            attr.bits == bits & Self::ALL,
    {
        DescriptorAttr { bits: bits & Self::ALL }
    }

    /// The attributes as a bit pattern.
    pub fn bits(&self) -> (bits: u64)
        ensures
            bits == self.bits,
    {
        self.bits
    }

    /// Tells whether every attribute of `other` is in `self`.
    #[verifier::when_used_as_spec(spec_contains)]
    pub fn contains(&self, other: u64) -> (all: bool)
        ensures
            all == self.spec_contains(other),
    {
        self.bits & other == other
    }

    /// Adds the attributes of `other`.
    pub fn insert(&mut self, other: u64)
        ensures
            final(self).bits == old(self).bits | other,
    {
        self.bits = self.bits | other;
    }
}

/// `flag` if the attribute `attr_bit` is set in `attr`, else nothing.
pub open spec fn flag_if(attr: u64, attr_bit: u64, flag: u64) -> u64 {
    if attr & attr_bit == attr_bit {
        flag
    } else {
        0
    }
}

/// The memory flags that a descriptor with the attributes `attr` grants:
/// none unless it is valid, else read, write, execute and user as the
/// attributes say.
pub open spec fn spec_mem_flags(attr: u64) -> u64 {
    if attr & DescriptorAttr::VALID == DescriptorAttr::VALID {
        flag_if(attr, DescriptorAttr::READABLE, MemFlags::READ) | flag_if(
            attr,
            DescriptorAttr::WRITABLE,
            MemFlags::WRITE,
        ) | flag_if(attr, DescriptorAttr::EXECUTABLE, MemFlags::EXECUTE) | flag_if(
            attr,
            DescriptorAttr::USER,
            MemFlags::USER,
        )
    } else {
        0
    }
}

/// The attributes of a second-stage leaf for the memory flags `flags`: valid,
/// user, accessed and dirty in any case, and the three permissions as the
/// flags say.
pub open spec fn spec_descriptor_attr(flags: u64) -> u64 {
    DescriptorAttr::VALID | DescriptorAttr::USER | DescriptorAttr::ACCESSED | DescriptorAttr::DIRTY
        | flag_if(flags, MemFlags::READ, DescriptorAttr::READABLE) | flag_if(
        flags,
        MemFlags::WRITE,
        DescriptorAttr::WRITABLE,
    ) | flag_if(flags, MemFlags::EXECUTE, DescriptorAttr::EXECUTABLE) | flag_if(
        flags,
        MemFlags::USER,
        DescriptorAttr::USER,
    )
}

/// `bit` if `set`, else nothing.
fn bit_if(set: bool, bit: u64) -> (r: u64)
    ensures
        r == if set {
            bit
        } else {
            0
        },
{
    if set {
        bit
    } else {
        0
    }
}

impl From<DescriptorAttr> for MemFlags {
    /// Reads the memory flags off a descriptor's attributes.
    fn from(attr: DescriptorAttr) -> (flags: MemFlags) {
        if !attr.contains(DescriptorAttr::VALID) {
            return MemFlags::empty();
        }
        let read = bit_if(attr.contains(DescriptorAttr::READABLE), MemFlags::READ);
        let write = bit_if(attr.contains(DescriptorAttr::WRITABLE), MemFlags::WRITE);
        let execute = bit_if(attr.contains(DescriptorAttr::EXECUTABLE), MemFlags::EXECUTE);
        let user = bit_if(attr.contains(DescriptorAttr::USER), MemFlags::USER);
        MemFlags { bits: read | write | execute | user }
    }
}

impl FromSpecImpl<DescriptorAttr> for MemFlags {
    open spec fn obeys_from_spec() -> bool {
        true
    }

    open spec fn from_spec(attr: DescriptorAttr) -> MemFlags {
        MemFlags { bits: spec_mem_flags(attr.bits) }
    }
}

impl From<MemFlags> for DescriptorAttr {
    /// Writes memory flags down as the attributes of a second-stage leaf.
    fn from(flags: MemFlags) -> (attr: DescriptorAttr) {
        // A second-stage table is walked for the guest as a whole, so its
        // leaves are user-accessible, and touched beforehand.
        let fixed = DescriptorAttr::VALID | DescriptorAttr::USER | DescriptorAttr::ACCESSED
            | DescriptorAttr::DIRTY;
        let read = bit_if(flags.contains(MemFlags::READ), DescriptorAttr::READABLE);
        let write = bit_if(flags.contains(MemFlags::WRITE), DescriptorAttr::WRITABLE);
        let execute = bit_if(flags.contains(MemFlags::EXECUTE), DescriptorAttr::EXECUTABLE);
        let user = bit_if(flags.contains(MemFlags::USER), DescriptorAttr::USER);
        DescriptorAttr { bits: fixed | read | write | execute | user }
    }
}

impl FromSpecImpl<MemFlags> for DescriptorAttr {
    open spec fn obeys_from_spec() -> bool {
        true
    }

    open spec fn from_spec(flags: MemFlags) -> DescriptorAttr {
        DescriptorAttr { bits: spec_descriptor_attr(flags.bits) }
    }
}

/// The page-number field of a descriptor: bits 10 to 53.
pub const PTE_PPN_MASK: u64 = 0x3F_FFFF_FFFF_FC00;

/// The page-number part of a 56-bit physical address: bits 12 to 55.
pub const PPN_MASK: u64 = 0xFF_FFFF_FFFF_F000;

/// The bits of a descriptor that hardware reserves or leaves to software.
pub const PTE_RESERVED_MASK: u64 = 0xFFC0_0000_0000_0300;

/// First address beyond the 56 bits that a descriptor can hold.
pub const PHYS_ADDR_LIMIT: u64 = 0x100_0000_0000_0000;

/// The physical address that the descriptor `bits` holds.
pub open spec fn spec_addr(bits: u64) -> usize {
    ((bits & PTE_PPN_MASK) << 2) as usize
}

/// The page-number field that stands for the physical address `paddr`.
pub open spec fn spec_ppn_field(paddr: usize) -> u64 {
    (paddr as u64 & PPN_MASK) >> 2
}

/// The descriptor `bits` is in use.
pub open spec fn spec_is_present(bits: u64) -> bool {
    bits & DescriptorAttr::VALID == DescriptorAttr::VALID
}

/// The descriptor `bits` maps memory itself: it is in use and grants
/// at least one of read, write and execute. A valid descriptor that grants
/// none of them points to the table of the next level.
pub open spec fn spec_is_leaf(bits: u64) -> bool {
    spec_is_present(bits) && (bits & DescriptorAttr::READABLE == DescriptorAttr::READABLE || bits
        & DescriptorAttr::WRITABLE == DescriptorAttr::WRITABLE || bits & DescriptorAttr::EXECUTABLE
        == DescriptorAttr::EXECUTABLE)
}

/// The descriptor `bits` with its page number replaced by that of `paddr`.
/// The attribute byte stays; the other bits are cleared.
pub open spec fn spec_set_addr(bits: u64, paddr: usize) -> u64 {
    (bits & DescriptorAttr::ALL) | spec_ppn_field(paddr)
}

/// The descriptor `bits` as a leaf with the memory flags `flags`. The page
/// number stays.
pub open spec fn spec_set_flags(bits: u64, flags: u64) -> u64 {
    spec_descriptor_attr(flags) | (bits & PTE_PPN_MASK)
}

/// The descriptor that points to the next-level table at `paddr`.
pub open spec fn spec_table_pointer(paddr: usize) -> u64 {
    DescriptorAttr::VALID | spec_ppn_field(paddr)
}

/// What masking does to the attribute bits, to the fields of a descriptor and
/// to the page number of an address.
proof fn lemma_masks(bits: u64, attr: u64, paddr: u64)
    by (bit_vector)
    ensures
        (bits & 0xff) & 1 == bits & 1,
        (bits & 0xff) & 2 == bits & 2,
        (bits & 0xff) & 4 == bits & 4,
        (bits & 0xff) & 8 == bits & 8,
        spec_get_bits(bits, 0, 8) == bits & 0xff,
        ((bits & 0xff) | ((paddr & PPN_MASK) >> 2)) & PTE_RESERVED_MASK == 0,
        (((attr & 0xff) | 1) & !PTE_PPN_MASK) == ((attr & 0xff) | 1),
        (((attr & 0xff) | 1) | (bits & PTE_PPN_MASK)) & PTE_RESERVED_MASK == 0,
        (1u64 & !PTE_PPN_MASK) == 1,
        ((bits & 0xff) | ((paddr & PPN_MASK) >> 2)) & PTE_PPN_MASK == (paddr & PPN_MASK) >> 2,
        (1u64 | ((paddr & PPN_MASK) >> 2)) & PTE_RESERVED_MASK == 0,
        0u64 & PTE_RESERVED_MASK == 0,
{
}

/// The attributes of a leaf are valid already, and fill no more than the
/// attribute byte.
proof fn lemma_descriptor_attr(flags: u64)
    by (bit_vector)
    ensures
        spec_descriptor_attr(flags) | 1 == spec_descriptor_attr(flags),
        spec_descriptor_attr(flags) & 0xff == spec_descriptor_attr(flags),
{
}

/// A descriptor taken apart: the word itself, the address in its page-number
/// field, its attributes, and the memory flags that it grants.
#[derive(Clone, Copy, Debug, PartialEq, Eq, Structural)]
pub struct PageTableEntryFields {
    /// The descriptor as a 64-bit word.
    pub raw: u64,
    /// The physical address held in the page-number field.
    pub paddr: usize,
    /// The attribute byte.
    pub attr: DescriptorAttr,
    /// The memory flags that the descriptor grants.
    pub flags: MemFlags,
}

/// One descriptor of a second-stage page table.
///
/// The word itself is private: a descriptor comes from `empty` and is changed
/// by the methods below, which never set a reserved bit.
#[derive(Clone, Copy, Debug)]
pub struct PageTableEntry(u64);

impl PageTableEntry {
    #[verifier::type_invariant]
    spec fn reserved_bits_clear(self) -> bool {
        self.0 & PTE_RESERVED_MASK == 0
    }

    /// The descriptor as a 64-bit word.
    pub closed spec fn spec_bits(&self) -> u64 {
        self.0
    }

    /// The descriptor that is not in use: all bits zero.
    pub fn empty() -> (pte: Self)
        ensures
            pte.spec_bits() == 0,
    {
        proof {
            lemma_masks(0, 0, 0);
        }
        PageTableEntry(0)
    }

    /// The descriptor as a 64-bit word, as hardware reads it.
    #[verifier::when_used_as_spec(spec_bits)]
    pub fn bits(&self) -> (bits: u64)
        ensures
            bits == self.spec_bits(),
            bits & PTE_RESERVED_MASK == 0,
    {
        proof {
            use_type_invariant(self);
        }
        self.0
    }

    /// The physical address held in the page-number field.
    pub fn addr(&self) -> (paddr: HostPhysAddr)
        ensures
            paddr == spec_addr(self.spec_bits()),
    {
        ((self.0 & PTE_PPN_MASK) << 2) as usize
    }

    /// The memory flags that the descriptor grants: none unless it is valid.
    pub fn flags(&self) -> (flags: MemFlags)
        ensures
            flags.bits == spec_mem_flags(self.spec_bits() & DescriptorAttr::ALL),
            !spec_is_present(self.spec_bits()) ==> flags.bits == 0,
    {
        proof {
            lemma_masks(self.0, 0, 0);
        }
        MemFlags::from(DescriptorAttr::from_bits_truncate(self.0))
    }

    /// Tells whether the descriptor has never been written: all bits zero.
    pub fn is_unused(&self) -> (unused: bool)
        ensures
            unused == (self.spec_bits() == 0),
    {
        self.0 == 0
    }

    /// Tells whether the descriptor is in use.
    pub fn is_present(&self) -> (present: bool)
        ensures
            present == spec_is_present(self.spec_bits()),
    {
        proof {
            lemma_masks(self.0, 0, 0);
        }
        DescriptorAttr::from_bits_truncate(self.0).contains(DescriptorAttr::VALID)
    }

    /// Tells whether the descriptor is a leaf: one that maps memory itself
    /// rather than pointing to a further table. Above the last level such a
    /// descriptor maps a large page.
    pub fn is_huge(&self) -> (leaf: bool)
        ensures
            leaf == spec_is_leaf(self.spec_bits()),
    {
        proof {
            lemma_masks(self.0, 0, 0);
        }
        let attr = DescriptorAttr::from_bits_truncate(self.0);
        self.is_present() && (attr.contains(DescriptorAttr::READABLE) || attr.contains(
            DescriptorAttr::WRITABLE,
        ) || attr.contains(DescriptorAttr::EXECUTABLE))
    }

    /// Replaces the page number by that of `paddr`. The attribute byte stays
    /// as it is.
    pub fn set_addr(&mut self, paddr: HostPhysAddr)
        ensures
            final(self).spec_bits() == spec_set_addr(old(self).spec_bits(), paddr),
    {
        proof {
            lemma_masks(self.0, 0, paddr as u64);
        }
        self.0 = get_bits(self.0, 0, 8) | ((paddr as u64 & PPN_MASK) >> 2);
    }

    /// Makes the descriptor a leaf with the memory flags `flags`. The page
    /// number stays as it is.
    pub fn set_flags(&mut self, flags: MemFlags)
        ensures
            final(self).spec_bits() == spec_set_flags(old(self).spec_bits(), flags.bits),
    {
        let mut attr = DescriptorAttr::from(flags);
        attr.insert(DescriptorAttr::VALID);
        proof {
            lemma_descriptor_attr(flags.bits);
            lemma_masks(self.0, attr.bits, 0);
        }
        self.0 = (attr.bits() & !PTE_PPN_MASK) | (self.0 & PTE_PPN_MASK);
    }

    /// Makes the descriptor point to the next-level table at `paddr`: valid,
    /// with no permission.
    pub fn set_table(&mut self, paddr: HostPhysAddr)
        ensures
            final(self).spec_bits() == spec_table_pointer(paddr),
    {
        self.set_addr(paddr);
        let attr = DescriptorAttr::VALID;
        proof {
            lemma_masks(old(self).0, 0, paddr as u64);
        }
        self.0 = (attr & !PTE_PPN_MASK) | (self.0 & PTE_PPN_MASK);
    }

    /// Takes the descriptor out of use: all bits zero.
    pub fn clear(&mut self)
        ensures
            final(self).spec_bits() == 0,
    {
        proof {
            lemma_masks(0, 0, 0);
        }
        self.0 = 0
    }

    /// What the descriptor holds, taken apart for display.
    pub fn fields(&self) -> (shown: PageTableEntryFields)
        ensures
            shown == (PageTableEntryFields {
                raw: self.spec_bits(),
                paddr: spec_addr(self.spec_bits()),
                attr: DescriptorAttr { bits: self.spec_bits() & DescriptorAttr::ALL },
                flags: MemFlags { bits: spec_mem_flags(self.spec_bits() & DescriptorAttr::ALL) },
            }),
    {
        PageTableEntryFields {
            raw: self.0,
            paddr: self.addr(),
            attr: DescriptorAttr::from_bits_truncate(self.0),
            flags: self.pt_flags(),
        }
    }

    /// The memory flags that the descriptor grants, for display.
    pub fn pt_flags(&self) -> (flags: MemFlags)
        ensures
            flags.bits == spec_mem_flags(self.spec_bits() & DescriptorAttr::ALL),
    {
        MemFlags::from(DescriptorAttr::from_bits_truncate(self.0))
    }
}

/// Reading back the attributes of a leaf gives the read, write and execute
/// flags that went in, and the user flag whether it went in or not.
pub proof fn lemma_flags_read_back(flags: MemFlags)
    ensures
        spec_mem_flags(spec_descriptor_attr(flags.bits)) == (flags.bits & (MemFlags::READ
            | MemFlags::WRITE | MemFlags::EXECUTE)) | MemFlags::USER,
{
    let f = flags.bits;
    assert(spec_mem_flags(spec_descriptor_attr(f)) == (f & (MemFlags::READ | MemFlags::WRITE
        | MemFlags::EXECUTE)) | MemFlags::USER) by (bit_vector);
}

/// For memory flags that hold the user flag, reading back the attributes of
/// a leaf restores just those of read, write, execute and user that the flags
/// hold.
pub proof fn lemma_flags_round_trip(flags: MemFlags)
    requires
        flags.spec_contains(MemFlags::USER),
    ensures
        spec_mem_flags(spec_descriptor_attr(flags.bits)) == flags.bits & (MemFlags::READ
            | MemFlags::WRITE | MemFlags::EXECUTE | MemFlags::USER),
{
    let f = flags.bits;
    assert(spec_mem_flags(spec_descriptor_attr(f)) == f & (MemFlags::READ | MemFlags::WRITE
        | MemFlags::EXECUTE | MemFlags::USER)) by (bit_vector)
        requires
            f & MemFlags::USER == MemFlags::USER,
    ;
}

/// Attributes without the valid bit grant nothing, whatever else they hold.
pub proof fn lemma_invalid_grants_nothing(attr: DescriptorAttr)
    requires
        !attr.spec_contains(DescriptorAttr::VALID),
    ensures
        spec_mem_flags(attr.bits) == 0,
{
}

/// A descriptor that points to a table is in use and is no leaf.
pub proof fn lemma_table_pointer_is_no_leaf(paddr: usize)
    ensures
        spec_is_present(spec_table_pointer(paddr)),
        !spec_is_leaf(spec_table_pointer(paddr)),
{
    let ppn = spec_ppn_field(paddr);
    assert(ppn & 0xf == 0) by (bit_vector)
        requires
            ppn == (paddr as u64 & PPN_MASK) >> 2,
    ;
    assert((1u64 | ppn) & 1 == 1 && (1u64 | ppn) & 2 != 2 && (1u64 | ppn) & 4 != 4 && (1u64 | ppn)
        & 8 != 8) by (bit_vector)
        requires
            ppn & 0xf == 0,
    ;
}

/// A descriptor that points to a table at a page-aligned address below 2^56
/// gives that address back.
pub proof fn lemma_table_pointer_round_trip(paddr: usize)
    requires
        spec_is_aligned(paddr),
        paddr < PHYS_ADDR_LIMIT,
    ensures
        spec_addr(spec_table_pointer(paddr)) == paddr,
{
    assert(spec_addr(spec_table_pointer(paddr)) == paddr) by (bit_vector)
        requires
            paddr % 0x1000 == 0,
            (paddr as u64) < PHYS_ADDR_LIMIT,
    ;
}

/// A descriptor made for memory flags with at least one of read, write and
/// execute is a leaf, and so are its attributes alone.
pub proof fn lemma_permission_makes_leaf(bits: u64, flags: MemFlags)
    requires
        flags.bits & (MemFlags::READ | MemFlags::WRITE | MemFlags::EXECUTE) != 0,
    ensures
        spec_is_leaf(spec_descriptor_attr(flags.bits)),
        spec_is_leaf(spec_set_flags(bits, flags.bits)),
{
    let f = flags.bits;
    assert(spec_is_leaf(spec_descriptor_attr(f)) && spec_is_leaf(spec_set_flags(bits, f)))
        by (bit_vector)
        requires
            f & (MemFlags::READ | MemFlags::WRITE | MemFlags::EXECUTE) != 0,
    ;
}

/// Setting a page-aligned address below 2^56 and reading it back gives that
/// address, and setting an address leaves the attribute byte as it was.
pub proof fn lemma_addr_round_trip(bits: u64, paddr: usize)
    requires
        spec_is_aligned(paddr),
        paddr < PHYS_ADDR_LIMIT,
    ensures
        spec_addr(spec_set_addr(bits, paddr)) == paddr,
        spec_set_addr(bits, paddr) & DescriptorAttr::ALL == bits & DescriptorAttr::ALL,
{
    assert(spec_addr(spec_set_addr(bits, paddr)) == paddr && spec_set_addr(bits, paddr)
        & DescriptorAttr::ALL == bits & DescriptorAttr::ALL) by (bit_vector)
        requires
            paddr % 0x1000 == 0,
            (paddr as u64) < PHYS_ADDR_LIMIT,
    ;
}

/// Setting the flags of a descriptor leaves its address as it was.
pub proof fn lemma_set_flags_keeps_addr(bits: u64, flags: MemFlags)
    ensures
        spec_addr(spec_set_flags(bits, flags.bits)) == spec_addr(bits),
        spec_set_flags(bits, flags.bits) & DescriptorAttr::ALL == spec_descriptor_attr(flags.bits),
{
    let f = flags.bits;
    assert(spec_addr(spec_set_flags(bits, f)) == spec_addr(bits) && spec_set_flags(bits, f)
        & DescriptorAttr::ALL == spec_descriptor_attr(f)) by (bit_vector);
}

/// The hardware operations on second-stage translation, as values: what to
/// write to `hgatp`, and what to fence.
pub struct S2PTInstr;

/// An `hfence.gvma` to execute.
#[derive(Clone, Copy, Debug, PartialEq, Eq, Structural)]
pub enum GuestTlbFlush {
    /// Forget every cached second-stage translation of this core.
    All,
    /// Forget the translations of one guest-physical address; `operand` is
    /// the address shifted right by two bits, as the instruction takes it.
    Address { operand: usize },
}

impl S2PTInstr {
    /// The translation mode Sv39x4, as the mode field of `hgatp` holds it.
    pub const MODE_SV39X4: u64 = 8;

    /// The one virtual-machine identifier in use.
    pub const VMID: u64 = 0;

    /// The value of `hgatp` that selects the table at `root_paddr`: the mode
    /// Sv39x4 in bits 60 to 63, the identifier 0 in bits 44 to 57, and the page
    /// number of the root in bits 0 to 43.
    pub open spec fn spec_hgatp(root_paddr: usize) -> u64 {
        0x8000_0000_0000_0000u64 | (root_paddr as u64 >> 12)
    }

    /// The value to write to `hgatp` so that this core translates guest
    /// addresses through the table at `root_paddr`.
    ///
    /// The address has to lie below 2^56, so that its page number fits the
    /// field. An address off a page boundary is not refused: its low twelve
    /// bits are dropped.
    pub fn activate(root_paddr: HostPhysAddr) -> (hgatp: u64)
        requires
            (root_paddr as u64) < PHYS_ADDR_LIMIT,
        ensures
            hgatp == Self::spec_hgatp(root_paddr),
    {
        let root_ppn: u64 = root_paddr as u64 >> 12;
        proof {
            lemma_hgatp_fields(root_paddr as u64);
        }
        let bits: u64 = 0;
        let bits = set_bits(bits, 60, 64, Self::MODE_SV39X4);
        let bits = set_bits(bits, 44, 58, Self::VMID);
        set_bits(bits, 0, 44, root_ppn)
    }

    /// The fence that makes a change of the table visible to this core:
    /// for one guest-physical address, or for all.
    pub fn flush(vaddr: Option<usize>) -> (fence: GuestTlbFlush)
        ensures
            fence == match vaddr {
                Some(addr) => GuestTlbFlush::Address { operand: addr >> 2 },
                None => GuestTlbFlush::All,
            },
    {
        match vaddr {
            Some(addr) => GuestTlbFlush::Address { operand: addr >> 2 },
            None => GuestTlbFlush::All,
        }
    }
}

/// The three fields of `hgatp` fit, and set one after the other they give
/// the value in one piece.
proof fn lemma_hgatp_fields(root_paddr: u64)
    by (bit_vector)
    requires
        root_paddr < PHYS_ADDR_LIMIT,
    ensures
        spec_fits_bits(8, 4),
        spec_fits_bits(0, 14),
        spec_fits_bits(root_paddr >> 12, 44),
        spec_set_bits(spec_set_bits(spec_set_bits(0, 60, 64, 8), 44, 58, 0), 0, 44, root_paddr >> 12)
            == 0x8000_0000_0000_0000u64 | (root_paddr >> 12),
{
}

} // verus!
