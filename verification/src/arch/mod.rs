//! What depends on the instruction set.

pub mod riscv64;
