//! The boards that the hypervisor runs on: where the interrupt controller
//! lies, how many cores there are, and what the first guest gets.

use crate::arch::riscv64::zone::HvArchZoneConfig;
use crate::config::{HvConfigMemoryRegion, MEM_TYPE_IO, MEM_TYPE_RAM};
use vstd::prelude::*;

verus! {

/// Offset of the priorities among the controller's registers.
pub const PLIC_PRIORITY_BASE: usize = 0x0000;

/// Offset of the pending bits among the controller's registers.
pub const PLIC_PENDING_BASE: usize = 0x1000;

/// Offset of the enable bits among the controller's registers.
pub const PLIC_ENABLE_BASE: usize = 0x2000;

/// Name of the first guest.
pub const ROOT_ZONE_NAME: &'static str = "root-linux";

/// What is fixed for one board.
pub struct PlatformConfig {
    /// Address of the interrupt controller.
    pub plic_base: usize,
    /// Number of interrupts that the controller knows.
    pub plic_max_irq: usize,
    /// Number of cores.
    pub max_cpu_num: usize,
    /// Guest-physical address of the first guest's device tree.
    pub root_zone_dtb_addr: u64,
    /// Guest-physical address of the first guest's kernel.
    pub root_zone_kernel_addr: u64,
    /// Where the first guest starts to run.
    pub root_zone_entry: u64,
    /// The cores of the first guest, one bit each.
    pub root_zone_cpus: u64,
    /// The memory of the first guest: its RAM, and its serial port.
    pub root_zone_memory_regions: [HvConfigMemoryRegion; 2],
    /// The interrupts of the first guest.
    pub root_zone_irqs: Vec<u32>,
    /// The interrupt controller of the first guest.
    pub root_arch_zone_config: HvArchZoneConfig,
}

/// The board that QEMU emulates as `virt`.
pub fn qemu_riscv64() -> (board: PlatformConfig)
    ensures
        board.plic_base == 0xc000000,
        board.plic_max_irq == 1024,
        board.max_cpu_num == 1,
        board.root_zone_dtb_addr == 0x80f00000,
        board.root_zone_kernel_addr == 0x81000000,
        board.root_zone_entry == 0x81000000,
        board.root_zone_cpus == 1,
        board.root_zone_memory_regions@ == seq![
            HvConfigMemoryRegion {
                mem_type: MEM_TYPE_RAM,
                physical_start: 0x80f00000,
                virtual_start: 0x80f00000,
                size: 0x7f100000,
            },
            HvConfigMemoryRegion {
                mem_type: MEM_TYPE_IO,
                physical_start: 0x10000000,
                virtual_start: 0x10000000,
                size: 0x1000,
            },
        ],
        board.root_zone_irqs@ == seq![10u32],
        board.root_arch_zone_config == (HvArchZoneConfig {
            plic_base: 0xc000000,
            plic_size: 0x4000000,
        }),
{
    let mut irqs: Vec<u32> = Vec::new();
    irqs.push(10);
    PlatformConfig {
        plic_base: 0xc000000,
        plic_max_irq: 1024,
        max_cpu_num: 1,
        root_zone_dtb_addr: 0x80f00000,
        root_zone_kernel_addr: 0x81000000,
        root_zone_entry: 0x81000000,
        root_zone_cpus: 1,
        root_zone_memory_regions: [
            HvConfigMemoryRegion {
                mem_type: MEM_TYPE_RAM,
                physical_start: 0x80f00000,
                virtual_start: 0x80f00000,
                size: 0x7f100000,
            },
            HvConfigMemoryRegion {
                mem_type: MEM_TYPE_IO,
                physical_start: 0x10000000,
                virtual_start: 0x10000000,
                size: 0x1000,
            },
        ],
        root_zone_irqs: irqs,
        root_arch_zone_config: HvArchZoneConfig { plic_base: 0xc000000, plic_size: 0x4000000 },
    }
}

/// The Kunminghu board with one core.
pub fn kmh_v2_1core() -> (board: PlatformConfig)
    ensures
        board.plic_base == 0x3c000000,
        board.plic_max_irq == 96,
        board.max_cpu_num == 1,
        board.root_zone_dtb_addr == 0x80E00000,
        board.root_zone_kernel_addr == 0x81000000,
        board.root_zone_entry == 0x81000000,
        board.root_zone_cpus == 1,
        board.root_zone_memory_regions@ == seq![
            HvConfigMemoryRegion {
                mem_type: MEM_TYPE_RAM,
                physical_start: 0x80E00000,
                virtual_start: 0x80E00000,
                size: 0x7F200000,
            },
            HvConfigMemoryRegion {
                mem_type: MEM_TYPE_IO,
                physical_start: 0x310B0000,
                virtual_start: 0x310B0000,
                size: 0x10000,
            },
        ],
        board.root_zone_irqs@ == seq![40u32],
        board.root_arch_zone_config == (HvArchZoneConfig {
            plic_base: 0x3c000000,
            plic_size: 0x1000000,
        }),
{
    let mut irqs: Vec<u32> = Vec::new();
    irqs.push(40);
    PlatformConfig {
        plic_base: 0x3c000000,
        plic_max_irq: 96,
        max_cpu_num: 1,
        root_zone_dtb_addr: 0x80E00000,
        root_zone_kernel_addr: 0x81000000,
        root_zone_entry: 0x81000000,
        root_zone_cpus: 1,
        root_zone_memory_regions: [
            HvConfigMemoryRegion {
                mem_type: MEM_TYPE_RAM,
                physical_start: 0x80E00000,
                virtual_start: 0x80E00000,
                size: 0x7F200000,
            },
            HvConfigMemoryRegion {
                mem_type: MEM_TYPE_IO,
                physical_start: 0x310B0000,
                virtual_start: 0x310B0000,
                size: 0x10000,
            },
        ],
        root_zone_irqs: irqs,
        root_arch_zone_config: HvArchZoneConfig { plic_base: 0x3c000000, plic_size: 0x1000000 },
    }
}

/// The ZCU102 board, which has 512 MB of memory.
pub fn zcu102() -> (board: PlatformConfig)
    ensures
        board.plic_base == 0xc000000,
        board.plic_max_irq == 1024,
        board.max_cpu_num == 4,
        board.root_zone_dtb_addr == 0x80000000,
        board.root_zone_kernel_addr == 0x80200000,
        board.root_zone_entry == 0x80200000,
        board.root_zone_cpus == 1,
        board.root_zone_memory_regions@ == seq![
            HvConfigMemoryRegion {
                mem_type: MEM_TYPE_RAM,
                physical_start: 0x80E00000,
                virtual_start: 0x80000000,
                size: 0x1f200000,
            },
            HvConfigMemoryRegion {
                mem_type: MEM_TYPE_IO,
                physical_start: 0x12000000,
                virtual_start: 0x12000000,
                size: 0x6000,
            },
        ],
        board.root_zone_irqs@ == seq![1u32, 2u32],
        board.root_arch_zone_config == (HvArchZoneConfig {
            plic_base: 0xc000000,
            plic_size: 0x4000000,
        }),
{
    let mut irqs: Vec<u32> = Vec::new();
    irqs.push(1);
    irqs.push(2);
    PlatformConfig {
        plic_base: 0xc000000,
        plic_max_irq: 1024,
        max_cpu_num: 4,
        root_zone_dtb_addr: 0x80000000,
        root_zone_kernel_addr: 0x80200000,
        root_zone_entry: 0x80200000,
        root_zone_cpus: 1,
        root_zone_memory_regions: [
            HvConfigMemoryRegion {
                mem_type: MEM_TYPE_RAM,
                physical_start: 0x80E00000,
                virtual_start: 0x80000000,
                size: 0x1f200000,
            },
            HvConfigMemoryRegion {
                // The system controller, the serial port and the card reader.
                mem_type: MEM_TYPE_IO,
                physical_start: 0x12000000,
                virtual_start: 0x12000000,
                size: 0x6000,
            },
        ],
        root_zone_irqs: irqs,
        root_arch_zone_config: HvArchZoneConfig { plic_base: 0xc000000, plic_size: 0x4000000 },
    }
}

} // verus!
