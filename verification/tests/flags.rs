use hvisor::consts::{
    core_end, hv_end, mem_pool_start, HvLayout, HV_HEAP_SIZE, HV_MEM_POOL_SIZE, INVALID_ADDRESS,
    PAGE_SIZE, PER_CPU_SIZE,
};
use hvisor::memory::addr::{align_down, align_up, is_aligned};
use hvisor::memory::flags::MemFlags;

#[test]
fn mem_flags_values() {
    assert_eq!(MemFlags::READ, 1);
    assert_eq!(MemFlags::WRITE, 2);
    assert_eq!(MemFlags::EXECUTE, 4);
    assert_eq!(MemFlags::DMA, 8);
    assert_eq!(MemFlags::IO, 16);
    assert_eq!(MemFlags::NO_HUGEPAGES, 256);
    assert_eq!(MemFlags::USER, 512);
    assert_eq!(
        MemFlags::ALL,
        MemFlags::READ
            | MemFlags::WRITE
            | MemFlags::EXECUTE
            | MemFlags::DMA
            | MemFlags::IO
            | MemFlags::NO_HUGEPAGES
            | MemFlags::USER
    );
}

#[test]
fn mem_flags_set_operations() {
    let mut flags = MemFlags::empty();
    assert!(flags.is_empty());
    flags.insert(MemFlags::READ);
    flags.insert(MemFlags::IO);
    assert_eq!(flags.bits(), 0x11);
    assert!(flags.contains(MemFlags::READ));
    assert!(flags.contains(MemFlags::READ | MemFlags::IO));
    assert!(!flags.contains(MemFlags::WRITE));
    assert!(!flags.contains(MemFlags::READ | MemFlags::WRITE));
    let both = flags.union(MemFlags::from_bits_truncate(MemFlags::WRITE));
    assert_eq!(both.bits(), 0x13);
    assert_eq!(MemFlags::from_bits_truncate(0xffff).bits(), 0x31f);
}

#[test]
fn alignment() {
    assert!(is_aligned(0));
    assert!(is_aligned(0x1000));
    assert!(!is_aligned(0x1001));
    assert!(!is_aligned(0xfff));
    assert_eq!(align_down(0), 0);
    assert_eq!(align_down(0xfff), 0);
    assert_eq!(align_down(0x1000), 0x1000);
    assert_eq!(align_down(0x1fff), 0x1000);
    assert_eq!(align_down(usize::MAX), usize::MAX - 0xfff);
    assert_eq!(align_up(0), 0);
    assert_eq!(align_up(1), 0x1000);
    assert_eq!(align_up(0x1000), 0x1000);
    assert_eq!(align_up(0x1001), 0x2000);
    assert_eq!(align_up(usize::MAX - 0xfff), usize::MAX - 0xfff);
}

#[test]
fn sizes() {
    assert_eq!(PAGE_SIZE, 4096);
    assert_eq!(HV_HEAP_SIZE, 0x10_0000);
    assert_eq!(HV_MEM_POOL_SIZE, 0x80_0000);
    assert_eq!(PER_CPU_SIZE, 0x8_0000);
    assert_eq!(INVALID_ADDRESS, usize::MAX);
}

#[test]
fn layout_of_one_core() {
    let layout = HvLayout { core_end: 0x8030_0000, max_cpu_num: 1 };
    assert_eq!(core_end(&layout), 0x8030_0000);
    assert_eq!(mem_pool_start(&layout), 0x8038_0000);
    assert_eq!(hv_end(&layout), 0x80b8_0000);
}

#[test]
fn layout_of_four_cores() {
    let layout = HvLayout { core_end: 0x8030_0000, max_cpu_num: 4 };
    assert_eq!(mem_pool_start(&layout), 0x8030_0000 + 4 * 512 * 1024);
    assert_eq!(hv_end(&layout), 0x8030_0000 + 4 * 512 * 1024 + 8 * 1024 * 1024);
}

#[test]
fn layout_without_cores() {
    let layout = HvLayout { core_end: 0x1000, max_cpu_num: 0 };
    assert_eq!(mem_pool_start(&layout), 0x1000);
    assert_eq!(hv_end(&layout), 0x1000 + HV_MEM_POOL_SIZE);
}

#[test]
fn layout_has_to_fit() {
    assert!(HvLayout { core_end: 0x8030_0000, max_cpu_num: 4 }.is_wf());
    assert!(HvLayout { core_end: usize::MAX - HV_MEM_POOL_SIZE, max_cpu_num: 0 }.is_wf());
    assert!(!HvLayout { core_end: usize::MAX - HV_MEM_POOL_SIZE + 1, max_cpu_num: 0 }.is_wf());
    assert!(!HvLayout { core_end: usize::MAX - HV_MEM_POOL_SIZE, max_cpu_num: 1 }.is_wf());
    assert!(!HvLayout { core_end: 0, max_cpu_num: usize::MAX }.is_wf());
}

#[test]
fn pool_may_start_where_its_end_does_not_fit() {
    let layout = HvLayout { core_end: usize::MAX - PER_CPU_SIZE, max_cpu_num: 1 };
    assert!(!layout.is_wf());
    assert_eq!(mem_pool_start(&layout), usize::MAX);
    let layout = HvLayout { core_end: usize::MAX, max_cpu_num: 0 };
    assert_eq!(mem_pool_start(&layout), usize::MAX);
}
