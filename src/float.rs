//! IEEE-754 binary32 values held as their bit patterns.
//!
//! A coordinate of the mesh is the `u32` that `f32::to_bits` gives for it.
//! Negation, the zero test and `==` of IEEE-754 are exact on that
//! representation and are stated here over the bits.
use vstd::prelude::*;

verus! {

/// The bits of `-v`, where `b` holds the bits of `v`: negation flips the sign
/// bit and nothing else, for every value including zeros, infinities and NaN.
pub open spec fn neg_spec(b: u32) -> u32 {
    b ^ 0x8000_0000u32
}

/// `b` holds `+0.0` or `-0.0`.
pub open spec fn is_zero_spec(b: u32) -> bool {
    b & 0x7fff_ffffu32 == 0
}

/// `b` holds a NaN: all exponent bits set and a nonzero fraction.
pub open spec fn is_nan_spec(b: u32) -> bool {
    b & 0x7f80_0000u32 == 0x7f80_0000u32 && b & 0x007f_ffffu32 != 0
}

/// IEEE-754 equality of the values that `a` and `b` hold: a NaN equals
/// nothing, the two zeros are equal, and otherwise equal values have equal bits.
pub open spec fn eq_spec(a: u32, b: u32) -> bool {
    !is_nan_spec(a) && !is_nan_spec(b) && (a == b || (is_zero_spec(a) && is_zero_spec(b)))
}

/// IEEE-754 `b > 0.0`: the positive subnormals, normals and `+inf` are the
/// bit patterns from `1` to `0x7f80_0000`; zeros, negatives and NaN fail.
pub open spec fn gt_zero_spec(b: u32) -> bool {
    0 < b && b <= 0x7f80_0000u32
}

/// Whether the value that `b` holds is greater than zero.
pub fn gt_zero(b: u32) -> (r: bool)
    ensures
        r == gt_zero_spec(b),
{
    0 < b && b <= 0x7f80_0000u32
}

/// The position of a non-NaN value in IEEE-754 order: positive values rise
/// with their bits, negative values fall with their magnitude bits, and both
/// zeros sit at 0.
pub open spec fn order_key(b: u32) -> int {
    if b & 0x8000_0000u32 != 0 {
        -((b & 0x7fff_ffffu32) as int)
    } else {
        b as int
    }
}

/// IEEE-754 `a < b`: false where either is NaN, else the order of the values.
pub open spec fn lt_spec(a: u32, b: u32) -> bool {
    !is_nan_spec(a) && !is_nan_spec(b) && order_key(a) < order_key(b)
}

/// Whether the value that `a` holds is less than the one `b` holds.
pub fn float_lt(a: u32, b: u32) -> (r: bool)
    ensures
        r == lt_spec(a, b),
{
    if is_nan(a) || is_nan(b) {
        return false;
    }
    let ka: i64 = if a & 0x8000_0000u32 != 0 {
        -((a & 0x7fff_ffffu32) as i64)
    } else {
        a as i64
    };
    let kb: i64 = if b & 0x8000_0000u32 != 0 {
        -((b & 0x7fff_ffffu32) as i64)
    } else {
        b as i64
    };
    ka < kb
}

/// The bits of the negation of the value that `b` holds.
pub fn neg(b: u32) -> (r: u32)
    ensures
        r == neg_spec(b),
{
    b ^ 0x8000_0000u32
}

/// Whether `b` holds a zero of either sign.
pub fn is_zero(b: u32) -> (r: bool)
    ensures
        r == is_zero_spec(b),
{
    b & 0x7fff_ffffu32 == 0
}

/// Whether `b` holds a NaN.
pub fn is_nan(b: u32) -> (r: bool)
    ensures
        r == is_nan_spec(b),
{
    b & 0x7f80_0000u32 == 0x7f80_0000u32 && b & 0x007f_ffffu32 != 0
}

/// IEEE-754 `==` on the values that `a` and `b` hold.
pub fn float_eq(a: u32, b: u32) -> (r: bool)
    ensures
        r == eq_spec(a, b),
{
    !is_nan(a) && !is_nan(b) && (a == b || (is_zero(a) && is_zero(b)))
}

/// Negating twice gives back the bits that were negated.
pub proof fn lemma_neg_involutive(b: u32)
    ensures
        neg_spec(neg_spec(b)) == b,
{
    assert(b ^ 0x8000_0000u32 ^ 0x8000_0000u32 == b) by (bit_vector);
}

/// Negation flips the sign bit and keeps every other bit: the value keeps
/// its magnitude and takes the opposite sign.
pub proof fn lemma_neg_flips_sign_only(b: u32)
    ensures
        neg_spec(b) & 0x7fff_ffffu32 == b & 0x7fff_ffffu32,
        neg_spec(b) & 0x8000_0000u32 != b & 0x8000_0000u32,
{
    assert((b ^ 0x8000_0000u32) & 0x7fff_ffffu32 == b & 0x7fff_ffffu32) by (bit_vector);
    assert((b ^ 0x8000_0000u32) & 0x8000_0000u32 != b & 0x8000_0000u32) by (bit_vector);
}

} // verus!
