//! Guest-execution core of a type-1 hypervisor for RISC-V with the H extension:
//! second-stage address translation and the dispatcher for guest traps.

pub mod arch;
pub mod bits;
pub mod config;
pub mod consts;
pub mod error;
pub mod memory;
pub mod platform;
pub mod vmexitinfo;
pub mod zone;
