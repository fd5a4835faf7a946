//! Fields of consecutive bits in a 64-bit word.

use bit_field::BitField;
use vstd::prelude::*;

verus! {

/// The bits `start..end` of `value`, moved down to position 0.
pub open spec fn spec_get_bits(value: u64, start: usize, end: usize) -> u64 {
    if start == end {
        0
    } else {
        ((value << ((64 - end) as usize)) >> ((64 - end) as usize)) >> start
    }
}

/// `field` has no bit at position `width` or above.
pub open spec fn spec_fits_bits(field: u64, width: usize) -> bool {
    if width == 0 {
        field == 0
    } else {
        (field << ((64 - width) as usize)) >> ((64 - width) as usize) == field
    }
}

/// `value` with its bits `start..end` replaced by `field`.
pub open spec fn spec_set_bits(value: u64, start: usize, end: usize, field: u64) -> u64 {
    if start == end {
        value
    } else {
        (value & !((((!0u64) << ((64 - end) as usize)) >> ((64 - end) as usize)) >> start << start))
            | (field << start)
    }
}

/// Reads the bits `start..end` of `value`.
///
/// Trusted: calls `bit_field::BitField::get_bits` for `u64`. That method
/// shifts the bits above `end` out to the left, shifts back, and then shifts
/// the bits below `start` out to the right; it panics unless
/// `start <= end <= 64` and `start < 64`.
#[verifier::external_body]
pub(crate) fn get_bits(value: u64, start: usize, end: usize) -> (field: u64)
    requires
        start <= end <= 64,
        start < 64,
    ensures
        field == spec_get_bits(value, start, end),
{
    value.get_bits(start..end)
}

/// Replaces the bits `start..end` of `value` by `field`.
///
/// Trusted: calls `bit_field::BitField::set_bits` for `u64`. That method
/// clears the positions `start..end` and ors in `field` shifted up by `start`;
/// it panics unless `start <= end <= 64`, `start < 64` and `field` fits into
/// `end - start` bits.
#[verifier::external_body]
pub(crate) fn set_bits(value: u64, start: usize, end: usize, field: u64) -> (word: u64)
    requires
        start <= end <= 64,
        start < 64,
        spec_fits_bits(field, (end - start) as usize),
    ensures
        word == spec_set_bits(value, start, end, field),
{
    let mut word = value;
    word.set_bits(start..end, field);
    word
}

} // verus!
