//! The two bit-width views of a 64-bit register value.
use vstd::prelude::*;

verus! {

/// The width through which a register is read or written.
#[derive(Clone, Copy, Debug, PartialEq, Eq, Structural)]
pub enum BitWidth {
    /// The whole 64-bit value (the X view).
    Full64,
    /// The low 32 bits (the W view).
    Low32,
}

/// The low 32 bits of `value`, as a 64-bit number.
pub open spec fn low_half(value: u64) -> u64 {
    value & 0xFFFF_FFFF
}

/// The high 32 bits of `value`, moved down to the low half.
pub open spec fn high_half(value: u64) -> u64 {
    value >> 32
}

/// What a read of `stored` through `view` gives.
pub open spec fn view_of(stored: u64, view: BitWidth) -> u64 {
    match view {
        BitWidth::Full64 => stored,
        BitWidth::Low32 => low_half(stored),
    }
}

/// What a register holds after `value` was written through `view`: the value
/// itself through the 64-bit view, its low half with the high half cleared
/// through the 32-bit view.
pub open spec fn stored_after_write(view: BitWidth, value: u64) -> u64 {
    view_of(value, view)
}

/// The low half of a value is that value modulo 2^32: it fits in 32 bits, its
/// high half is zero, and it is a fixed point of taking the low half.
pub proof fn lemma_low_half(value: u64)
    ensures
        low_half(value) == value % 0x1_0000_0000,
        low_half(value) <= 0xFFFF_FFFF,
        high_half(low_half(value)) == 0,
        low_half(low_half(value)) == low_half(value),
        value <= 0xFFFF_FFFF ==> low_half(value) == value,
{
    assert(value & 0xFFFF_FFFF == value % 0x1_0000_0000) by (bit_vector);
    assert((value & 0xFFFF_FFFF) >> 32 == 0) by (bit_vector);
    assert((value & 0xFFFF_FFFF) & 0xFFFF_FFFF == value & 0xFFFF_FFFF) by (bit_vector);
}

/// Computes the low 32 bits of `value` by masking.
pub fn mask_low_half(value: u64) -> (low: u64)
    ensures
        low == low_half(value),
        low == value % 0x1_0000_0000,
        low <= 0xFFFF_FFFF,
{
    proof {
        lemma_low_half(value);
    }
    value & 0xFFFF_FFFF
}

} // verus!
