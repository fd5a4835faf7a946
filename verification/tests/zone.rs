use hvisor::arch::riscv64::cpu::ArchCpu;
use hvisor::arch::riscv64::trap::{
    guest_page_fault_handler, HaltReason, PlicWindow, TrapStep,
};
use hvisor::arch::riscv64::zone::{has_sstc, node_of, CpuIsa, HvArchZoneConfig};
use hvisor::config::{HvConfigMemoryRegion, MEM_TYPE_IO, MEM_TYPE_RAM, MEM_TYPE_VIRTIO};
use hvisor::error::HvError;
use hvisor::memory::flags::MemFlags;
use hvisor::platform::{
    kmh_v2_1core, qemu_riscv64, zcu102, PLIC_ENABLE_BASE, PLIC_PENDING_BASE, PLIC_PRIORITY_BASE,
    ROOT_ZONE_NAME,
};
use hvisor::vmexitinfo::VmExitInfo;
use hvisor::zone::{CpuSet, MMIOConfig, MMIOHandler, Zone, IRQ_BITMAP_WORDS, MAX_IRQS};

const POOL: usize = 0x9000_0000;
const GRANTED: u64 = MemFlags::READ | MemFlags::WRITE | MemFlags::EXECUTE | MemFlags::USER;

fn config(mem_type: u32, virtual_start: u64, physical_start: u64, size: u64) -> HvConfigMemoryRegion {
    HvConfigMemoryRegion { mem_type, physical_start, virtual_start, size }
}

fn granted() -> MemFlags {
    MemFlags::from_bits_truncate(GRANTED)
}

#[test]
fn new_zone_is_empty() {
    let zone = Zone::new(7, POOL, 4);
    assert_eq!(zone.id, 7);
    assert_eq!(zone.gpm.len(), 0);
    assert!(zone.mmio.is_empty());
    assert_eq!(zone.cpu_set, CpuSet { max_cpu_id: 0, bitmap: 0 });
    assert_eq!(zone.irq_bitmap, [0u32; IRQ_BITMAP_WORDS]);
    assert!(zone.owned_irqs().is_empty());
}

#[test]
fn ram_region_is_translated() {
    let mut zone = Zone::new(0, POOL, 8);
    let regions = [config(MEM_TYPE_RAM, 0x8000_0000, 0x8000_0000, 0x1000)];
    assert_eq!(zone.pt_init(&regions), Ok(()));
    let (hpa, flags) = zone.gpm.query(0x8000_0100).unwrap();
    assert_eq!(hpa, 0x8000_0100);
    assert!(flags.contains(MemFlags::READ | MemFlags::WRITE | MemFlags::EXECUTE));
    assert_eq!(flags, granted());
    assert_eq!(zone.gpm.query(0x8000_1000), None);
    assert!(zone.mmio.is_empty());
}

#[test]
fn ram_region_with_offset() {
    let mut zone = Zone::new(0, POOL, 8);
    let regions = [config(MEM_TYPE_RAM, 0x8000_0000, 0x80e0_0000, 0x3000)];
    assert_eq!(zone.pt_init(&regions), Ok(()));
    assert_eq!(zone.gpm.query(0x8000_2abc), Some((0x80e0_2abc, granted())));
}

#[test]
fn io_region_is_mapped_too() {
    let mut zone = Zone::new(0, POOL, 8);
    let regions = [
        config(MEM_TYPE_RAM, 0x8000_0000, 0x8000_0000, 0x2000),
        config(MEM_TYPE_IO, 0x1000_0000, 0x1000_0000, 0x1000),
    ];
    assert_eq!(zone.pt_init(&regions), Ok(()));
    assert_eq!(zone.gpm.len(), 2);
    assert_eq!(zone.gpm.query(0x1000_0004), Some((0x1000_0004, granted())));
    assert_eq!(zone.gpm.query(0x8000_1004), Some((0x8000_1004, granted())));
}

#[test]
fn emulated_device_is_registered_and_not_mapped() {
    let mut zone = Zone::new(0, POOL, 8);
    let regions = [
        config(MEM_TYPE_RAM, 0x8000_0000, 0x8000_0000, 0x1000),
        config(MEM_TYPE_VIRTIO, 0x0a00_3000, 0x0a00_3000, 0x200),
    ];
    assert_eq!(zone.pt_init(&regions), Ok(()));
    assert_eq!(zone.gpm.len(), 1);
    assert_eq!(
        zone.mmio,
        vec![MMIOConfig {
            start: 0x0a00_3000,
            size: 0x200,
            handler: MMIOHandler::Virtio,
            arg: 0x0a00_3000
        }]
    );
    assert_eq!(zone.gpm.query(0x0a00_3000), None);
    assert_eq!(zone.gpm.query(0x0a00_3100), None);
}

#[test]
fn overlapping_region_ends_setup() {
    let mut zone = Zone::new(0, POOL, 16);
    let regions = [
        config(MEM_TYPE_RAM, 0x8000_0000, 0x8000_0000, 0x2000),
        config(MEM_TYPE_VIRTIO, 0x0a00_3000, 0x0a00_3000, 0x200),
        config(MEM_TYPE_IO, 0x8000_1000, 0x1000_0000, 0x1000),
        config(MEM_TYPE_RAM, 0x9000_0000, 0x9000_0000, 0x1000),
    ];
    assert_eq!(zone.pt_init(&regions), Err(HvError::InvalidArgument));
    // What came before the failure stays; what came after was not reached.
    assert_eq!(zone.gpm.len(), 1);
    assert_eq!(zone.mmio.len(), 1);
    assert_eq!(zone.gpm.query(0x8000_1000), Some((0x8000_1000, granted())));
    assert_eq!(zone.gpm.query(0x9000_0000), None);
}

#[test]
fn exhausted_pool_ends_setup() {
    let mut zone = Zone::new(0, POOL, 2);
    let regions = [
        config(MEM_TYPE_RAM, 0x8000_0000, 0x8000_0000, 0x1000),
        config(MEM_TYPE_RAM, 0x8000_1000, 0x8000_1000, 0x1000),
    ];
    assert_eq!(zone.pt_init(&regions), Err(HvError::OutOfMemory));
    assert_eq!(zone.gpm.len(), 1);
    assert_eq!(zone.gpm.query(0x8000_1000), None);
}

#[test]
fn empty_list_sets_up_nothing() {
    let mut zone = Zone::new(0, POOL, 2);
    assert_eq!(zone.pt_init(&[]), Ok(()));
    assert_eq!(zone.gpm.len(), 0);
}

#[test]
fn supported_regions() {
    assert!(config(MEM_TYPE_RAM, 0x8000_0000, 0x8000_0000, 0x1000).is_supported());
    assert!(config(MEM_TYPE_IO, 0x8000_0000, 0x8000_0000, 0x1000).is_supported());
    assert!(config(MEM_TYPE_VIRTIO, 0x8000_0000, 0x8000_0000, 0x1000).is_supported());
    assert!(!config(3, 0x8000_0000, 0x8000_0000, 0x1000).is_supported());
    assert!(!config(MEM_TYPE_RAM, u64::MAX, 0x8000_0000, 0x1000).is_supported());
    assert!(!config(MEM_TYPE_RAM, 0, 0, u64::MAX).is_supported());
}

#[test]
fn device_at_controller_traps_into_global_window() {
    let board = qemu_riscv64();
    let base = board.plic_base;
    let mut zone = Zone::new(0, POOL, 8);
    let regions = [config(MEM_TYPE_VIRTIO, base as u64, base as u64, 0x40_0000)];
    assert_eq!(zone.pt_init(&regions), Ok(()));
    assert_eq!(zone.mmio.len(), 1);
    assert_eq!(zone.mmio[0].start, base);
    // Nothing is mapped there, so the access faults.
    assert_eq!(zone.gpm.query(base + 4), None);
    let mut cpu = ArchCpu { cpuid: 0, sepc: 0x8020_0000, sstc: false };
    let mut stats = VmExitInfo::new();
    let mut global_calls = 0;
    // lw a0,0(a1)
    let step = guest_page_fault_handler(&cpu, (base + 4) >> 2, 0x0005_a503, base, &mut stats);
    match step {
        TrapStep::Emulate { window: PlicWindow::Global, addr, inst, advance } => {
            assert_eq!(addr, base + 4);
            assert_eq!(inst, 0x0005_a503);
            global_calls += 1;
            cpu.advance_pc(advance);
        }
        other => panic!("unexpected step {other:?}"),
    }
    assert_eq!(global_calls, 1);
    assert_eq!(cpu.sepc, 0x8020_0004);
    assert_ne!(step, TrapStep::Halt(HaltReason::EcallFromUser));
}

#[test]
fn mmio_init_changes_nothing() {
    let mut zone = Zone::new(3, POOL, 4);
    zone.irq_bitmap_init(&[5]);
    zone.mmio_init(&HvArchZoneConfig { plic_base: 0x0c00_0000, plic_size: 0x400_0000 });
    assert_eq!(zone.id, 3);
    assert_eq!(zone.owned_irqs(), vec![5]);
    assert!(zone.mmio.is_empty());
    assert_eq!(zone.gpm.len(), 0);
}

#[test]
fn mmio_regions_are_kept_in_order() {
    let mut zone = Zone::new(0, POOL, 4);
    zone.mmio_region_register(0x1000, 0x100, MMIOHandler::Virtio, 1);
    zone.mmio_region_register(0x2000, 0x200, MMIOHandler::Virtio, 2);
    assert_eq!(
        zone.mmio,
        vec![
            MMIOConfig { start: 0x1000, size: 0x100, handler: MMIOHandler::Virtio, arg: 1 },
            MMIOConfig { start: 0x2000, size: 0x200, handler: MMIOHandler::Virtio, arg: 2 },
        ]
    );
}

#[test]
fn inserted_irqs_are_owned_and_no_others() {
    let mut zone = Zone::new(0, POOL, 4);
    let irqs = [0u32, 1, 31, 32, 33, 40, 511, 512, 1000, 1023];
    for irq in irqs {
        zone.insert_irq_to_bitmap(irq);
    }
    for irq in 0..MAX_IRQS as u32 {
        assert_eq!(zone.owns_irq(irq), irqs.contains(&irq));
    }
    assert!(!zone.owns_irq(1024));
    assert!(!zone.owns_irq(u32::MAX));
    assert_eq!(zone.owned_irqs(), irqs.to_vec());
}

#[test]
fn irq_bitmap_words() {
    let mut zone = Zone::new(0, POOL, 4);
    zone.insert_irq_to_bitmap(0);
    zone.insert_irq_to_bitmap(33);
    zone.insert_irq_to_bitmap(1023);
    let mut expected = [0u32; IRQ_BITMAP_WORDS];
    expected[0] = 1;
    expected[1] = 2;
    expected[31] = 0x8000_0000;
    assert_eq!(zone.irq_bitmap, expected);
    // Marking an interrupt again changes nothing.
    zone.insert_irq_to_bitmap(33);
    assert_eq!(zone.irq_bitmap, expected);
}

#[test]
fn irq_bitmap_init_marks_the_list() {
    let mut zone = Zone::new(0, POOL, 4);
    zone.irq_bitmap_init(&[40, 10, 10, 999]);
    assert_eq!(zone.owned_irqs(), vec![10, 40, 999]);
    zone.irq_bitmap_init(&[]);
    assert_eq!(zone.owned_irqs(), vec![10, 40, 999]);
    zone.irq_bitmap_init(&[1, 40]);
    assert_eq!(zone.owned_irqs(), vec![1, 10, 40, 999]);
}

#[test]
fn cpu_set_membership() {
    let set = CpuSet::new(3, 0b1010_0101);
    assert!(set.contains_cpu(0));
    assert!(!set.contains_cpu(1));
    assert!(set.contains_cpu(2));
    assert!(!set.contains_cpu(3));
    // Beyond the highest core of the platform.
    assert!(!set.contains_cpu(5));
    assert!(!set.contains_cpu(7));
    assert!(!set.contains_cpu(64));
    assert!(!CpuSet::new(100, u64::MAX).contains_cpu(64));
    assert!(CpuSet::new(100, u64::MAX).contains_cpu(63));
}

#[test]
fn sstc_is_found_in_isa_string() {
    assert!(has_sstc("rv64imafdch_sstc"));
    assert!(has_sstc("sstc"));
    assert!(has_sstc("rv64imafdc_zicsr_sstc_zifencei"));
    assert!(has_sstc("ssstc"));
    assert!(!has_sstc(""));
    assert!(!has_sstc("sst"));
    assert!(!has_sstc("rv64imafdc"));
    assert!(!has_sstc("ss_tc"));
    assert!(!has_sstc("SSTC"));
    assert!(!has_sstc("stsc"));
}

#[test]
fn node_of_finds_first() {
    let nodes = vec![
        CpuIsa { cpuid: 1, isa: String::from("a") },
        CpuIsa { cpuid: 0, isa: String::from("b") },
        CpuIsa { cpuid: 1, isa: String::from("c") },
    ];
    assert_eq!(node_of(&nodes, 1), Some(0));
    assert_eq!(node_of(&nodes, 0), Some(1));
    assert_eq!(node_of(&nodes, 2), None);
    assert_eq!(node_of(&Vec::new(), 0), None);
}

#[test]
fn isa_init_marks_cores_of_the_zone() {
    let mut zone = Zone::new(0, POOL, 4);
    zone.cpu_set = CpuSet::new(3, 0b0111);
    let nodes = vec![
        CpuIsa { cpuid: 0, isa: String::from("rv64imafdch_sstc") },
        CpuIsa { cpuid: 1, isa: String::from("rv64imafdch") },
        CpuIsa { cpuid: 2, isa: String::from("rv64imafdc_sstc_zicsr") },
        CpuIsa { cpuid: 3, isa: String::from("rv64imafdch_sstc") },
        CpuIsa { cpuid: 2, isa: String::from("rv64imafdc") },
    ];
    let mut cpus: Vec<ArchCpu> = (0..4).map(ArchCpu::new).collect();
    cpus[1].sepc = 0x1234;
    zone.isa_init(&nodes, &mut cpus);
    assert_eq!(
        cpus,
        vec![
            ArchCpu { cpuid: 0, sepc: 0, sstc: true },
            ArchCpu { cpuid: 1, sepc: 0x1234, sstc: false },
            ArchCpu { cpuid: 2, sepc: 0, sstc: true },
            // Core 3 is not of the zone.
            ArchCpu { cpuid: 3, sepc: 0, sstc: false },
        ]
    );
}

#[test]
fn isa_init_keeps_what_was_found_before() {
    let mut zone = Zone::new(0, POOL, 4);
    zone.cpu_set = CpuSet::new(0, 1);
    let nodes = vec![CpuIsa { cpuid: 0, isa: String::from("rv64imac") }];
    let mut cpus = vec![ArchCpu { cpuid: 0, sepc: 0, sstc: true }];
    zone.isa_init(&nodes, &mut cpus);
    assert!(cpus[0].sstc);
}

#[test]
fn platform_qemu() {
    let board = qemu_riscv64();
    assert_eq!(board.plic_base, 0x0c00_0000);
    assert_eq!(board.plic_max_irq, 1024);
    assert_eq!(board.max_cpu_num, 1);
    assert_eq!(board.root_zone_dtb_addr, 0x80f0_0000);
    assert_eq!(board.root_zone_kernel_addr, 0x8100_0000);
    assert_eq!(board.root_zone_entry, 0x8100_0000);
    assert_eq!(board.root_zone_cpus, 1);
    assert_eq!(
        board.root_zone_memory_regions,
        [
            config(MEM_TYPE_RAM, 0x80f0_0000, 0x80f0_0000, 0x7f10_0000),
            config(MEM_TYPE_IO, 0x1000_0000, 0x1000_0000, 0x1000),
        ]
    );
    assert_eq!(board.root_zone_irqs, vec![10]);
    assert_eq!(
        board.root_arch_zone_config,
        HvArchZoneConfig { plic_base: 0x0c00_0000, plic_size: 0x400_0000 }
    );
}

#[test]
fn platform_kmh() {
    let board = kmh_v2_1core();
    assert_eq!(board.plic_base, 0x3c00_0000);
    assert_eq!(board.plic_max_irq, 96);
    assert_eq!(board.max_cpu_num, 1);
    assert_eq!(board.root_zone_dtb_addr, 0x80e0_0000);
    assert_eq!(board.root_zone_kernel_addr, 0x8100_0000);
    assert_eq!(board.root_zone_entry, 0x8100_0000);
    assert_eq!(board.root_zone_cpus, 1);
    assert_eq!(
        board.root_zone_memory_regions,
        [
            config(MEM_TYPE_RAM, 0x80e0_0000, 0x80e0_0000, 0x7f20_0000),
            config(MEM_TYPE_IO, 0x310b_0000, 0x310b_0000, 0x1_0000),
        ]
    );
    assert_eq!(board.root_zone_irqs, vec![40]);
    assert_eq!(
        board.root_arch_zone_config,
        HvArchZoneConfig { plic_base: 0x3c00_0000, plic_size: 0x100_0000 }
    );
}

#[test]
fn platform_zcu102() {
    let board = zcu102();
    assert_eq!(board.plic_base, 0x0c00_0000);
    assert_eq!(board.plic_max_irq, 1024);
    assert_eq!(board.max_cpu_num, 4);
    assert_eq!(board.root_zone_dtb_addr, 0x8000_0000);
    assert_eq!(board.root_zone_kernel_addr, 0x8020_0000);
    assert_eq!(board.root_zone_entry, 0x8020_0000);
    assert_eq!(board.root_zone_cpus, 1);
    assert_eq!(
        board.root_zone_memory_regions,
        [
            config(MEM_TYPE_RAM, 0x8000_0000, 0x80e0_0000, 0x1f20_0000),
            config(MEM_TYPE_IO, 0x1200_0000, 0x1200_0000, 0x6000),
        ]
    );
    assert_eq!(board.root_zone_irqs, vec![1, 2]);
    assert_eq!(
        board.root_arch_zone_config,
        HvArchZoneConfig { plic_base: 0x0c00_0000, plic_size: 0x400_0000 }
    );
}

#[test]
fn platform_shared_constants() {
    assert_eq!(PLIC_PRIORITY_BASE, 0);
    assert_eq!(PLIC_PENDING_BASE, 0x1000);
    assert_eq!(PLIC_ENABLE_BASE, 0x2000);
    assert_eq!(ROOT_ZONE_NAME, "root-linux");
}

#[test]
fn root_zone_of_a_small_board_is_set_up() {
    let board = zcu102();
    // The pool that the hypervisor has: eight megabytes of tables.
    let mut zone = Zone::new(0, 0x1_0000_0000, 2044);
    assert!(board.root_zone_memory_regions.iter().all(|region| region.is_supported()));
    assert_eq!(zone.pt_init(&board.root_zone_memory_regions), Ok(()));
    zone.irq_bitmap_init(&board.root_zone_irqs);
    assert_eq!(zone.owned_irqs(), vec![1, 2]);
    assert_eq!(zone.gpm.query(0x8000_0000), Some((0x80e0_0000, granted())));
    assert_eq!(zone.gpm.query(0x9f1f_fff8), Some((0x9fff_fff8, granted())));
    assert_eq!(zone.gpm.query(0x9f20_0000), None);
    assert_eq!(zone.gpm.query(0x1200_5ffc), Some((0x1200_5ffc, granted())));
    assert_eq!(zone.gpm.query(0x1200_6000), None);
}
