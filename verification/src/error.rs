//! Errors that setup operations report to their caller.

use vstd::prelude::*;

verus! {

/// Why a setup operation did not take place.
#[derive(Clone, Copy, Debug, PartialEq, Eq, Structural)]
pub enum HvError {
    /// An argument conflicts with what is already set up, such as a memory
    /// region that overlaps an existing one.
    InvalidArgument,
    /// No frame is left for another page table.
    OutOfMemory,
}

/// Result of a setup operation.
pub type HvResult<T = ()> = Result<T, HvError>;

} // verus!
