//! Lengths on the map, as the applications hold them.
//!
//! A length is held as the bit pattern of an IEEE 754 double that is not
//! negative. Such patterns are ordered as the lengths are, which makes a
//! comparison of lengths a comparison of integers. A pattern above that of
//! positive infinity stands for a negative number or for no number, and so
//! for no length.

use vstd::prelude::*;

verus! {

/// The bit pattern of positive infinity: the largest that stands for a
/// length.
pub const LARGEST_LENGTH: u64 = 0x7FF0_0000_0000_0000;

/// Whether a bit pattern stands for a length.
pub open spec fn spec_is_length(bits: u64) -> bool {
    bits <= LARGEST_LENGTH
}

/// Whether a length is within a bound. Nothing is within a bound that is
/// no length, and what is no length is within no bound.
pub open spec fn spec_within(length: u64, bound: u64) -> bool {
    length <= bound && spec_is_length(bound)
}

/// Whether a bit pattern stands for a length.
pub fn is_length(bits: u64) -> (yes: bool)
    ensures
        yes == spec_is_length(bits),
{
    bits <= LARGEST_LENGTH
}

/// Whether a length is within a bound.
pub fn within(length: u64, bound: u64) -> (yes: bool)
    ensures
        yes == spec_within(length, bound),
{
    length <= bound && bound <= LARGEST_LENGTH
}

} // verus!
