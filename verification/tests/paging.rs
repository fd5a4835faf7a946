use hvisor::arch::riscv64::paging::{
    table_bound, Stage2PageTable, GPA_LIMIT, PT_ENTRIES, PT_ROOT_ENTRIES, SIZE_1G, SIZE_2M,
};
use hvisor::arch::riscv64::s2pt::S2PTInstr;
use hvisor::error::HvError;
use hvisor::memory::flags::MemFlags;
use hvisor::memory::mm::{MemoryRegion, MemorySet};

const POOL: usize = 0x9000_0000;
const RWX: u64 = MemFlags::READ | MemFlags::WRITE | MemFlags::EXECUTE;
const GRANTED: u64 = RWX | MemFlags::USER;

fn region(start: usize, phys: usize, size: usize, bits: u64) -> MemoryRegion {
    MemoryRegion::new_with_offset_mapper(start, phys, size, MemFlags::from_bits_truncate(bits))
}

fn granted(bits: u64) -> MemFlags {
    MemFlags::from_bits_truncate(bits)
}

#[test]
fn new_table_maps_nothing() {
    let table = Stage2PageTable::new(POOL, 8);
    assert_eq!(table.root_paddr(), POOL);
    assert_eq!(table.capacity(), 8);
    assert_eq!(table.free_tables(), 8);
    assert_eq!(table.len(), PT_ROOT_ENTRIES);
    for index in 0..table.len() {
        assert_eq!(table.word(index), 0);
    }
    for gpa in [0usize, 0x1000, 0x8000_0000, 0x1ff_ffff_f000, usize::MAX] {
        assert_eq!(table.query(gpa), None);
    }
}

#[test]
fn map_one_page() {
    let mut table = Stage2PageTable::new(POOL, 8);
    table.map(&region(0x8000_0000, 0x8000_0000, 0x1000, RWX));
    assert_eq!(table.query(0x8000_0000), Some((0x8000_0000, granted(GRANTED))));
    assert_eq!(table.query(0x8000_0100), Some((0x8000_0100, granted(GRANTED))));
    assert_eq!(table.query(0x8000_0fff), Some((0x8000_0fff, granted(GRANTED))));
    assert_eq!(table.query(0x8000_1000), None);
    assert_eq!(table.query(0x7fff_ffff), None);
    assert_eq!(table.free_tables(), 6);
}

#[test]
fn map_writes_the_words_that_hardware_walks() {
    let mut table = Stage2PageTable::new(POOL, 8);
    table.map(&region(0x8000_1000, 0xa000_5000, 0x1000, MemFlags::READ));
    assert_eq!(table.len(), PT_ROOT_ENTRIES + 2 * PT_ENTRIES);
    // The root points to the first table of the pool, which points to the
    // second; both are valid and grant nothing themselves.
    let top = 0x8000_1000usize / SIZE_1G;
    assert_eq!(table.word(top), ((POOL as u64 + 0x4000) >> 2) | 1);
    let mid = PT_ROOT_ENTRIES + (0x8000_1000usize / SIZE_2M) % 512;
    assert_eq!(table.word(mid), ((POOL as u64 + 0x5000) >> 2) | 1);
    // The leaf: valid, readable, user, accessed and dirty.
    let last = PT_ROOT_ENTRIES + PT_ENTRIES + 1;
    assert_eq!(table.word(last), (0xa000_5000u64 >> 2) | 0xd3);
    let used = (0..table.len()).filter(|index| table.word(*index) != 0).count();
    assert_eq!(used, 3);
}

#[test]
fn map_with_offset() {
    let mut table = Stage2PageTable::new(POOL, 8);
    table.map(&region(0x8000_0000, 0x8e00_0000, 0x3000, MemFlags::READ | MemFlags::WRITE));
    let flags = granted(MemFlags::READ | MemFlags::WRITE | MemFlags::USER);
    assert_eq!(table.query(0x8000_0000), Some((0x8e00_0000, flags)));
    assert_eq!(table.query(0x8000_1234), Some((0x8e00_1234, flags)));
    assert_eq!(table.query(0x8000_2fff), Some((0x8e00_2fff, flags)));
    assert_eq!(table.query(0x8000_3000), None);
}

#[test]
fn map_across_table_boundaries() {
    let mut table = Stage2PageTable::new(POOL, 8);
    // Two pages on either side of a boundary of 1 GiB.
    let start = 2 * SIZE_1G - 0x2000;
    table.map(&region(start, 0x4000_0000, 0x4000, RWX));
    for page in 0..4usize {
        assert_eq!(
            table.query(start + page * 0x1000 + 8),
            Some((0x4000_0000 + page * 0x1000 + 8, granted(GRANTED)))
        );
    }
    assert_eq!(table.query(start - 1), None);
    assert_eq!(table.query(start + 0x4000), None);
    assert_eq!(table.free_tables(), 4);
}

#[test]
fn map_second_region_keeps_first() {
    let mut table = Stage2PageTable::new(POOL, 8);
    table.map(&region(0x8000_0000, 0x8000_0000, 0x2000, RWX));
    table.map(&region(0x1000_0000, 0x1000_0000, 0x1000, MemFlags::READ));
    assert_eq!(table.query(0x8000_1008), Some((0x8000_1008, granted(GRANTED))));
    assert_eq!(
        table.query(0x1000_0004),
        Some((0x1000_0004, granted(MemFlags::READ | MemFlags::USER)))
    );
    // The regions lie in different gigabytes: two tables each.
    assert_eq!(table.free_tables(), 4);
}

#[test]
fn map_reuses_tables() {
    let mut table = Stage2PageTable::new(POOL, 8);
    table.map(&region(0x8000_0000, 0x8000_0000, 0x1000, RWX));
    table.map(&region(0x8000_5000, 0x9000_0000, 0x1000, RWX));
    assert_eq!(table.free_tables(), 6);
    table.map(&region(0x8020_0000, 0x9100_0000, 0x1000, RWX));
    assert_eq!(table.free_tables(), 5);
    assert_eq!(table.query(0x8000_5010), Some((0x9000_0010, granted(GRANTED))));
    assert_eq!(table.query(0x8020_0010), Some((0x9100_0010, granted(GRANTED))));
}

#[test]
fn map_many_pages() {
    let mut table = Stage2PageTable::new(POOL, 8);
    let pages = 1200usize;
    table.map(&region(0x8000_0000, 0xc000_0000, pages * 0x1000, RWX));
    for page in [0usize, 1, 511, 512, 513, 1023, 1024, 1199] {
        assert_eq!(
            table.query(0x8000_0000 + page * 0x1000 + 4),
            Some((0xc000_0000 + page * 0x1000 + 4, granted(GRANTED)))
        );
    }
    assert_eq!(table.query(0x8000_0000 + pages * 0x1000), None);
    // One table of the middle level and three of the last.
    assert_eq!(table.free_tables(), 4);
}

#[test]
fn map_highest_page() {
    let mut table = Stage2PageTable::new(POOL, 2);
    let top = GPA_LIMIT as usize - 0x1000;
    table.map(&region(top, 0xff_ffff_ffff_e000, 0x1000, RWX));
    assert_eq!(table.query(top + 0xfff), Some((0xff_ffff_ffff_efff, granted(GRANTED))));
    assert_eq!(table.query(GPA_LIMIT as usize), None);
}

#[test]
fn table_bound_counts_blocks() {
    assert_eq!(table_bound(0x8000_0000, 0), 0);
    assert_eq!(table_bound(0x8000_0000, 0x1000), 2);
    assert_eq!(table_bound(0x8000_0000, SIZE_2M), 2);
    assert_eq!(table_bound(0x8000_0000, SIZE_2M + 0x1000), 3);
    assert_eq!(table_bound(0x8000_0000 - 0x1000, 0x2000), 4);
    assert_eq!(table_bound(0, SIZE_1G), 512 + 1);
    assert_eq!(table_bound(0x80f0_0000, 0x7f10_0000), 1017 + 2);
}

#[test]
fn root_address_activates() {
    let table = Stage2PageTable::new(POOL, 8);
    assert_eq!(S2PTInstr::activate(table.root_paddr()), 0x8000_0000_0009_0000);
}

#[test]
fn memory_set_starts_empty() {
    let set = MemorySet::new(POOL, 8);
    assert_eq!(set.len(), 0);
    assert_eq!(set.query(0x8000_0000), None);
    assert_eq!(set.page_table().root_paddr(), POOL);
    assert_eq!(set.page_table().capacity(), 8);
}

#[test]
fn memory_set_insert_and_query() {
    let mut set = MemorySet::new(POOL, 8);
    assert_eq!(set.insert(region(0x8000_0000, 0x8000_0000, 0x1000, RWX)), Ok(()));
    assert_eq!(set.len(), 1);
    assert_eq!(set.query(0x8000_0100), Some((0x8000_0100, granted(GRANTED))));
    assert_eq!(set.query(0x8000_1000), None);
}

#[test]
fn memory_set_io_flag_is_not_a_permission() {
    let mut set = MemorySet::new(POOL, 8);
    assert_eq!(set.insert(region(0x1000_0000, 0x1000_0000, 0x1000, RWX | MemFlags::IO)), Ok(()));
    assert_eq!(set.query(0x1000_0000), Some((0x1000_0000, granted(GRANTED))));
}

#[test]
fn memory_set_empty_region_changes_nothing() {
    let mut set = MemorySet::new(POOL, 8);
    assert_eq!(set.insert(region(0x8000_0000, 0x8000_0000, 0, RWX)), Ok(()));
    assert_eq!(set.len(), 0);
    assert_eq!(set.query(0x8000_0000), None);
}

#[test]
fn memory_set_refuses_overlap() {
    let mut set = MemorySet::new(POOL, 16);
    assert_eq!(set.insert(region(0x8000_0000, 0x8000_0000, 0x4000, RWX)), Ok(()));
    for (start, size) in
        [(0x8000_0000usize, 0x1000usize), (0x8000_3000, 0x2000), (0x7fff_f000, 0x2000), (0x7000_0000, 0x2000_0000)]
    {
        assert_eq!(
            set.insert(region(start, 0xa000_0000, size, MemFlags::READ)),
            Err(HvError::InvalidArgument)
        );
    }
    assert_eq!(set.len(), 1);
    // What was mapped is as it was, and nothing else is mapped.
    assert_eq!(set.query(0x8000_3004), Some((0x8000_3004, granted(GRANTED))));
    assert_eq!(set.query(0x8000_4000), None);
    assert_eq!(set.query(0x7fff_f000), None);
    // Regions that touch do not overlap.
    assert_eq!(set.insert(region(0x8000_4000, 0xa000_0000, 0x1000, MemFlags::READ)), Ok(()));
    assert_eq!(set.insert(region(0x7fff_f000, 0xa000_1000, 0x1000, MemFlags::READ)), Ok(()));
    assert_eq!(set.len(), 3);
}

#[test]
fn memory_set_refuses_region_without_permission() {
    let mut set = MemorySet::new(POOL, 8);
    assert_eq!(
        set.insert(region(0x8000_0000, 0x8000_0000, 0x1000, MemFlags::USER | MemFlags::IO)),
        Err(HvError::InvalidArgument)
    );
    assert_eq!(set.query(0x8000_0000), None);
}

#[test]
fn memory_set_refuses_region_beyond_translated_addresses() {
    let mut set = MemorySet::new(POOL, 8);
    assert_eq!(
        set.insert(region(GPA_LIMIT as usize - 0x1000, 0x8000_0000, 0x2000, RWX)),
        Err(HvError::InvalidArgument)
    );
    assert_eq!(
        set.insert(region(0x8000_0000, 0x100_0000_0000_0000 - 0x1000, 0x2000, RWX)),
        Err(HvError::InvalidArgument)
    );
    assert_eq!(set.len(), 0);
}

#[test]
fn memory_set_runs_out_of_tables() {
    let mut set = MemorySet::new(POOL, 3);
    assert_eq!(set.insert(region(0x8000_0000, 0x8000_0000, 0x1000, RWX)), Ok(()));
    // Two tables are set aside for the first region; the second asks for two
    // more, and one is left.
    assert_eq!(
        set.insert(region(0x9000_0000, 0x9000_0000, 0x1000, RWX)),
        Err(HvError::OutOfMemory)
    );
    assert_eq!(set.len(), 1);
    assert_eq!(set.query(0x9000_0000), None);
    assert_eq!(set.query(0x8000_0000), Some((0x8000_0000, granted(GRANTED))));
    assert_eq!(set.page_table().free_tables(), 1);
}

#[test]
fn memory_set_without_pool_maps_nothing() {
    let mut set = MemorySet::new(POOL, 0);
    assert_eq!(
        set.insert(region(0x8000_0000, 0x8000_0000, 0x1000, RWX)),
        Err(HvError::OutOfMemory)
    );
}

#[test]
fn region_is_widened_to_pages() {
    let made = region(0x8000_0123, 0x9000_0456, 0x1001, RWX);
    assert_eq!(made.start, 0x8000_0000);
    assert_eq!(made.phys_start, 0x9000_0000);
    assert_eq!(made.size, 0x2000);
    assert_eq!(made.flags.bits(), RWX);
    assert!(made.contains(0x8000_0000));
    assert!(made.contains(0x8000_1fff));
    assert!(!made.contains(0x8000_2000));
    assert!(!made.contains(0x7fff_ffff));
    assert!(made.is_mappable());
}

#[test]
fn region_fits_address_space() {
    assert!(MemoryRegion::fits(0, 0, 0));
    assert!(MemoryRegion::fits(0x8000_0000, 0x8000_0000, 0x1000));
    assert!(!MemoryRegion::fits(0, 0, usize::MAX));
    assert!(!MemoryRegion::fits(usize::MAX, 0, 0x1000));
    assert!(!MemoryRegion::fits(0, usize::MAX - 0xfff, 0x1000));
    assert!(MemoryRegion::fits(usize::MAX - 0x1fff, 0, 0x1000));
}

#[test]
fn regions_overlap() {
    let one = region(0x8000_0000, 0, 0x2000, RWX);
    assert!(one.overlaps(&region(0x8000_1000, 0, 0x1000, RWX)));
    assert!(one.overlaps(&region(0x7fff_f000, 0, 0x2000, RWX)));
    assert!(!one.overlaps(&region(0x8000_2000, 0, 0x1000, RWX)));
    assert!(!one.overlaps(&region(0x7fff_f000, 0, 0x1000, RWX)));
    let set = MemorySet::new(POOL, 8);
    assert!(set.test_free_area(&one));
}

#[test]
fn pool_has_to_fit() {
    assert!(Stage2PageTable::pool_fits(POOL, 8));
    assert!(Stage2PageTable::pool_fits(0, 0));
    // The root table is aligned to its size.
    assert!(!Stage2PageTable::pool_fits(POOL + 0x1000, 8));
    assert!(!Stage2PageTable::pool_fits(POOL, usize::MAX));
    assert!(!Stage2PageTable::pool_fits(POOL, usize::MAX / 0x1000));
    // What a descriptor can point to ends at 2^56.
    assert!(Stage2PageTable::pool_fits(0x100_0000_0000_0000 - 0x8000, 4));
    assert!(!Stage2PageTable::pool_fits(0x100_0000_0000_0000 - 0x8000, 5));
}

#[test]
fn clear_takes_every_mapping_out() {
    let mut table = Stage2PageTable::new(POOL, 8);
    table.map(&region(0x8000_0000, 0x8000_0000, 0x3000, RWX));
    table.map(&region(0x1000_0000, 0x1000_0000, 0x1000, RWX));
    table.clear();
    assert_eq!(table.len(), PT_ROOT_ENTRIES);
    assert_eq!(table.free_tables(), 8);
    assert_eq!(table.root_paddr(), POOL);
    for index in 0..table.len() {
        assert_eq!(table.word(index), 0);
    }
    assert_eq!(table.query(0x8000_0000), None);
    assert_eq!(table.query(0x1000_0000), None);
    // The table can be used anew.
    table.map(&region(0x8000_0000, 0xa000_0000, 0x1000, MemFlags::READ));
    assert_eq!(
        table.query(0x8000_0008),
        Some((0xa000_0008, granted(MemFlags::READ | MemFlags::USER)))
    );
}

#[test]
fn memory_set_clear_gives_tables_back() {
    let mut set = MemorySet::new(POOL, 2);
    assert_eq!(set.insert(region(0x8000_0000, 0x8000_0000, 0x1000, RWX)), Ok(()));
    assert_eq!(
        set.insert(region(0x9000_0000, 0x9000_0000, 0x1000, RWX)),
        Err(HvError::OutOfMemory)
    );
    set.clear();
    assert_eq!(set.len(), 0);
    assert_eq!(set.query(0x8000_0000), None);
    assert_eq!(set.insert(region(0x9000_0000, 0x9000_0000, 0x1000, RWX)), Ok(()));
    assert_eq!(set.query(0x9000_0010), Some((0x9000_0010, granted(GRANTED))));
    assert_eq!(set.query(0x8000_0000), None);
}

/// Walks the words of the pool as the privileged architecture lays it down
/// for Sv39x4: eleven bits of index into the root, nine into each table
/// below, the next table at the page number of the descriptor.
fn hardware_walk(table: &Stage2PageTable, hgatp: u64, gpa: u64) -> Option<(u64, u64)> {
    if gpa >> 41 != 0 {
        return None;
    }
    let base = table.root_paddr() as u64;
    let mut at = (hgatp & 0xfff_ffff_ffff) << 12;
    let indices = [(gpa >> 30) & 0x7ff, (gpa >> 21) & 0x1ff, (gpa >> 12) & 0x1ff];
    let spans = [1u64 << 30, 1 << 21, 1 << 12];
    for level in 0..3 {
        let index = ((at - base) / 8 + indices[level]) as usize;
        let pte = table.word(index);
        if pte & 1 == 0 {
            return None;
        }
        let ppn = (pte >> 10) & 0xfff_ffff_ffff;
        if pte & 0xe != 0 {
            // A leaf of the second stage has to be accessible from user level.
            assert_ne!(pte & 0x10, 0);
            return Some(((ppn << 12) + gpa % spans[level], (pte >> 1) & 7));
        }
        at = ppn << 12;
    }
    None
}

#[test]
fn query_agrees_with_walk_of_the_words() {
    let mut set = MemorySet::new(POOL, 64);
    let regions = [
        (0x8000_0000usize, 0x8000_0000usize, 0x40_0000usize, RWX),
        (0x1000_0000, 0x1000_0000, 0x1000, MemFlags::READ | MemFlags::WRITE),
        (0x4000_0000 - 0x3000, 0xa000_0000, 0x6000, MemFlags::READ | MemFlags::EXECUTE),
        (0x1_0000_0000, 0x2_0000_0000, 0x20_3000, MemFlags::READ),
    ];
    for (start, phys, size, bits) in regions {
        assert_eq!(set.insert(region(start, phys, size, bits)), Ok(()));
    }
    let table = set.page_table();
    let hgatp = S2PTInstr::activate(table.root_paddr());
    let mut seed: u64 = 0x1234_5678;
    let mut probes: Vec<usize> = Vec::new();
    for (start, _, size, _) in regions {
        for offset in [0usize, 1, 0xfff, 0x1000, size / 2, size - 1] {
            probes.push(start + offset);
        }
        probes.push(start - 1);
        probes.push(start + size);
    }
    for _ in 0..2000 {
        seed = seed.wrapping_mul(6364136223846793005).wrapping_add(1442695040888963407);
        probes.push((seed >> 22) as usize);
        probes.push(0x8000_0000 + ((seed >> 40) as usize & 0x7f_ffff));
    }
    for gpa in probes {
        let walked = hardware_walk(table, hgatp, gpa as u64);
        let found = set.query(gpa);
        assert_eq!(
            found.map(|(hpa, flags)| (hpa as u64, flags.bits() & 7)),
            walked,
            "at {gpa:#x}"
        );
        let expected = regions
            .iter()
            .find(|(start, _, size, _)| *start <= gpa && gpa < start + size)
            .map(|(start, phys, _, bits)| (phys + (gpa - start), granted(bits | MemFlags::USER)));
        assert_eq!(found, expected, "at {gpa:#x}");
    }
}
