//! Sign-magnitude bit encoding of the pipeline's double-precision scalars.
//!
//! The verified parts of the pipeline never compute with floating-point
//! values; where a rule only reads a scalar's sign, magnitude order, or
//! not-a-number status, it works on the scalar's 64-bit encoding instead:
//! one sign bit, then exponent and mantissa, ordered so that for two
//! encodings of equal sign the unsigned order of the magnitude bits is the
//! magnitude order of the scalars. Flipping the sign bit is exactly
//! negation, and an encoding is a not-a-number exactly when its magnitude
//! bits exceed those of infinity.

use vstd::prelude::*;

verus! {

/// The sign bit of a 64-bit scalar encoding.
pub const SIGN_MASK: u64 = 0x8000_0000_0000_0000;

/// Everything but the sign bit: the magnitude (exponent and mantissa) bits.
pub const MAGNITUDE_MASK: u64 = 0x7fff_ffff_ffff_ffff;

/// The magnitude bits of infinity: exponent all ones, mantissa zero.
pub const INFINITY_BITS: u64 = 0x7ff0_0000_0000_0000;

/// The magnitude bits of an encoding: its absolute value's encoding.
pub open spec fn magnitude_bits(b: u64) -> u64 {
    b & MAGNITUDE_MASK
}

/// Negation of the encoded scalar.
pub open spec fn flip_sign(b: u64) -> u64 {
    b ^ SIGN_MASK
}

/// Whether the encoded scalar carries a negative sign.
pub open spec fn sign_is_negative(b: u64) -> bool {
    b & SIGN_MASK == SIGN_MASK
}

/// Whether the encoding is a not-a-number: exponent all ones and a nonzero
/// mantissa, that is, magnitude bits strictly above those of infinity.
pub open spec fn is_nan_bits(b: u64) -> bool {
    magnitude_bits(b) > INFINITY_BITS
}

/// Negation keeps the magnitude, toggles the sign, and undoes itself.
pub proof fn lemma_flip_sign(b: u64)
    ensures
        magnitude_bits(flip_sign(b)) == magnitude_bits(b),
        sign_is_negative(flip_sign(b)) == !sign_is_negative(b),
        flip_sign(flip_sign(b)) == b,
{
    assert(((b ^ 0x8000_0000_0000_0000u64) & 0x7fff_ffff_ffff_ffffu64) == (b
        & 0x7fff_ffff_ffff_ffffu64)) by (bit_vector);
    assert((((b ^ 0x8000_0000_0000_0000u64) & 0x8000_0000_0000_0000u64)
        == 0x8000_0000_0000_0000u64) == !((b & 0x8000_0000_0000_0000u64)
        == 0x8000_0000_0000_0000u64)) by (bit_vector);
    assert(((b ^ 0x8000_0000_0000_0000u64) ^ 0x8000_0000_0000_0000u64) == b) by (bit_vector);
}

/// Negating a scalar: the executable form of `flip_sign`.
pub fn negate_bits(b: u64) -> (r: u64)
    ensures
        r == flip_sign(b),
{
    b ^ SIGN_MASK
}

/// Dropping a scalar's sign: the executable form of `magnitude_bits`.
pub fn abs_bits(b: u64) -> (r: u64)
    ensures
        r == magnitude_bits(b),
{
    b & MAGNITUDE_MASK
}

/// Whether an encoded scalar is negative: the executable sign test.
pub fn is_negative(b: u64) -> (r: bool)
    ensures
        r == sign_is_negative(b),
{
    b & SIGN_MASK == SIGN_MASK
}

/// Whether an encoded scalar is a not-a-number.
pub fn is_nan(b: u64) -> (r: bool)
    ensures
        r == is_nan_bits(b),
{
    (b & MAGNITUDE_MASK) > INFINITY_BITS
}

} // verus!
