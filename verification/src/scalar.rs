//! Scalars as bit patterns, and the four-scalar values that every property carries.

use vstd::prelude::*;

verus! {

/// One scalar: the bit pattern of a single-precision number (sign bit, eight exponent
/// bits, twenty-three fraction bits).
pub type Scalar = u32;

/// The fixed-width value of one property for one entity.
pub type Vec4 = [Scalar; 4];

/// What an encoder returns for one property of one entity: a value, or "no value".
pub type Slot = Option<Vec4>;

/// The bit pattern of zero.
pub const ZERO: Scalar = 0;

/// The bit pattern of one.
pub const ONE: Scalar = 0x3f80_0000;

/// The sign bit of a scalar.
pub const SIGN_BIT: Scalar = 0x8000_0000;

/// The scalar of opposite sign: the same bits with the sign bit flipped.
pub open spec fn negated(x: Scalar) -> Scalar {
    x ^ SIGN_BIT
}

/// Flips the sign of a scalar.
pub fn negate(x: Scalar) -> (r: Scalar)
    ensures
        r == negated(x),
{
    x ^ SIGN_BIT
}

/// The four-scalar value whose scalars are all zero: what a buffer slot holds until an
/// encoder writes a value into it.
pub open spec fn zero_vec4() -> Vec4 {
    [ZERO, ZERO, ZERO, ZERO]
}

/// Builds the all-zero value.
pub fn zero_value() -> (r: Vec4)
    ensures
        r == zero_vec4(),
{
    [ZERO, ZERO, ZERO, ZERO]
}

/// Negating twice gives the scalar back.
pub proof fn lemma_negated_twice(x: Scalar)
    ensures
        negated(negated(x)) == x,
{
    assert((x ^ 0x8000_0000u32) ^ 0x8000_0000u32 == x) by (bit_vector);
}

/// Negation changes the sign bit and nothing else.
pub proof fn lemma_negated_keeps_magnitude(x: Scalar)
    ensures
        negated(x) != x,
        negated(x) & 0x7fff_ffffu32 == x & 0x7fff_ffffu32,
{
    assert((x ^ 0x8000_0000u32) != x) by (bit_vector);
    assert((x ^ 0x8000_0000u32) & 0x7fff_ffffu32 == x & 0x7fff_ffffu32) by (bit_vector);
}

} // verus!
