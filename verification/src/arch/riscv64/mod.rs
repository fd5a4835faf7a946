//! RISC-V with the hypervisor extension.

pub mod cpu;
pub mod inst;
pub mod paging;
pub mod s2pt;
pub mod trap;
pub mod zone;
