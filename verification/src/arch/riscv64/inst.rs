//! Recovery of the guest instruction that trapped: fetched from guest memory
//! in units of 16 bits, or taken from what the hardware reports.

use vstd::prelude::*;

verus! {

/// Length in bytes of the instruction whose low 16 bits are `low`, by the
/// length encoding of the instruction set.
pub open spec fn spec_instruction_length(low: u16) -> usize {
    if low & 0b11 != 0b11 {
        2
    } else if low & 0b11100 != 0b11100 {
        4
    } else if low & 0b111111 == 0b011111 {
        6
    } else if low & 0b1111111 == 0b011111 {
        8
    } else {
        (10 + 2 * (((low >> 12) & 0b111) as usize)) as usize
    }
}

/// Trusted: `riscv_decode::instruction_length` tests the low bits of its
/// argument in this order and returns the length that the first match gives.
pub assume_specification[ riscv_decode::instruction_length ](i: u16) -> (len: usize)
    ensures
        len == spec_instruction_length(i),
;

/// Whether `riscv_decode::decode` knows the encoding `inst`.
pub uninterp spec fn spec_decodes(inst: u32) -> bool;

/// Tells whether `inst` is an instruction that the decoder knows.
///
/// Trusted: calls `riscv_decode::decode`, which looks at nothing but its
/// argument and returns either an instruction or an error; it does not
/// panic. The result here is whether it returned an instruction.
#[verifier::external_body]
fn decodes(inst: u32) -> (known: bool)
    ensures
        known == spec_decodes(inst),
{
    riscv_decode::decode(inst).is_ok()
}

/// What the fetch of an instruction needs after its first unit.
#[derive(Clone, Copy, Debug, PartialEq, Eq, Structural)]
pub enum InstFetch {
    /// The instruction is compressed, and complete with the first unit.
    Complete { inst: u32 },
    /// The instruction is of standard width: its upper half, the unit at
    /// `addr`, is to be loaded as well.
    Second { addr: usize, low: u32 },
}

/// Width in bytes of the instruction that begins with `first`: 4 where the
/// two low bits are both set, else 2.
pub open spec fn spec_fetched_width(first: u32) -> usize {
    if first & 0b11 == 0b11 {
        4
    } else {
        2
    }
}

/// The step after the first 16-bit unit of the instruction at `addr` has
/// been loaded.
pub open spec fn spec_read_inst(addr: usize, first: u64) -> InstFetch {
    if spec_fetched_width(first as u32) == 4 {
        InstFetch::Second { addr: addr.wrapping_add(2), low: first as u32 }
    } else {
        InstFetch::Complete { inst: first as u32 }
    }
}

/// The instruction whose lower half is `low` and whose upper half was loaded
/// as `second`.
pub open spec fn spec_join_halves(low: u32, second: u64) -> u32 {
    low | ((second as u32) << 16)
}

/// Width in bytes of the instruction that begins with `first`.
pub fn fetched_width(first: u32) -> (width: usize)
    ensures
        width == spec_fetched_width(first),
{
    if first & 0b11 == 0b11 {
        4
    } else {
        2
    }
}

/// Goes on with the fetch of the guest instruction at `addr`, of which the
/// first 16-bit unit has been loaded as `first`: a compressed instruction is
/// complete; one of standard width needs the unit two bytes further on.
///
/// The units are loaded one by one so that each load is aligned.
pub fn read_inst(addr: usize, first: u64) -> (next: InstFetch)
    ensures
        next == spec_read_inst(addr, first),
{
    let low: u32 = first as u32;
    if fetched_width(low) == 4 {
        InstFetch::Second { addr: addr.wrapping_add(2), low }
    } else {
        InstFetch::Complete { inst: low }
    }
}

/// Completes an instruction of standard width from its lower half and the
/// unit loaded for its upper half.
pub fn read_inst_second(low: u32, second: u64) -> (inst: u32)
    ensures
        inst == spec_join_halves(low, second),
{
    low | ((second as u32) << 16)
}

/// The encoding that is decoded for `inst`, by the length that its low 16
/// bits give: those 16 bits alone for length 2, all of it for length 4, and
/// none for the longer encodings, which no decoder here knows.
pub open spec fn spec_selected_encoding(inst: u32) -> Option<u32> {
    let len = spec_instruction_length(inst as u16);
    if len == 2 {
        Some((inst as u16) as u32)
    } else if len == 4 {
        Some(inst)
    } else {
        None
    }
}

/// What decoding makes of `inst`, where `known` tells whether the decoder
/// knows the selected encoding: the length, and that encoding if it is known.
pub open spec fn spec_decoded(inst: u32, known: bool) -> (usize, Option<u32>) {
    (
        spec_instruction_length(inst as u16),
        match spec_selected_encoding(inst) {
            Some(encoding) => if known {
                Some(encoding)
            } else {
                None
            },
            None => None,
        },
    )
}

/// Whether the decoder knows the encoding selected for `inst`.
pub open spec fn spec_known(inst: u32) -> bool {
    match spec_selected_encoding(inst) {
        Some(encoding) => spec_decodes(encoding),
        None => false,
    }
}

/// Settles what decoding makes of `inst`, given whether the decoder knows
/// the encoding selected for it.
pub fn decoded(inst: u32, known: bool) -> (r: (usize, Option<u32>))
    ensures
        r == spec_decoded(inst, known),
{
    let low: u16 = inst as u16;
    let len = riscv_decode::instruction_length(low);
    if known && len == 2 {
        (len, Some(low as u32))
    } else if known && len == 4 {
        (len, Some(inst))
    } else {
        (len, None)
    }
}

/// Decodes `inst`: gives the length of the instruction, and the encoding that
/// stands for it if the decoder knows it.
pub fn decode_inst(inst: u32) -> (r: (usize, Option<u32>))
    ensures
        r == spec_decoded(inst, spec_known(inst)),
{
    let low: u16 = inst as u16;
    let len = riscv_decode::instruction_length(low);
    let known = if len == 2 {
        decodes(low as u32)
    } else if len == 4 {
        decodes(inst)
    } else {
        false
    };
    decoded(inst, known)
}

} // verus!
