//! Architecture-neutral description of guest memory.

pub mod addr;
pub mod flags;
pub mod mm;
