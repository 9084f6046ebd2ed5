//! Dimension values, held by their single-precision IEEE-754 bit patterns.
//!
//! A dimension value is a binary32 number; this crate carries its 32-bit
//! pattern. Comparing two such numbers needs only the pattern: a pattern is
//! NaN when its exponent bits are all set and its fraction is not zero, and
//! for any two patterns that are not NaN the numeric order is the order of
//! their sign-magnitude reading (`ordinal`), under which positive and
//! negative zero coincide.

use vstd::prelude::*;

verus! {

/// Bit pattern of positive zero.
pub const ZERO_BITS: u32 = 0;

/// Bit pattern of one half.
pub const HALF_BITS: u32 = 0x3f00_0000;

/// Bit pattern of one.
pub const ONE_BITS: u32 = 0x3f80_0000;

/// The sign bit; the remaining bits are the magnitude.
pub const SIGN_BIT: u32 = 0x8000_0000;

/// Magnitude of the infinities: every larger magnitude is a NaN.
pub const INFINITY_MAGNITUDE: u32 = 0x7f80_0000;

/// The magnitude bits of a pattern: all but the sign.
pub open spec fn magnitude(b: u32) -> int {
    b as int % (SIGN_BIT as int)
}

/// Whether the pattern is a NaN.
pub open spec fn spec_is_nan(b: u32) -> bool {
    magnitude(b) > INFINITY_MAGNITUDE
}

/// The sign-magnitude reading of a pattern: the magnitude, negated when the
/// sign bit is set. Both zeros read as 0.
pub open spec fn ordinal(b: u32) -> int {
    if b >= SIGN_BIT {
        -magnitude(b)
    } else {
        magnitude(b)
    }
}

/// `a <= b` on the numbers the patterns stand for: false when either is NaN.
pub open spec fn spec_value_le(a: u32, b: u32) -> bool {
    !spec_is_nan(a) && !spec_is_nan(b) && ordinal(a) <= ordinal(b)
}

/// Whether the pattern is a NaN.
pub fn is_nan(b: u32) -> (r: bool)
    ensures
        r == spec_is_nan(b),
{
    b % SIGN_BIT > INFINITY_MAGNITUDE
}

/// The sign-magnitude reading of a pattern.
pub fn ordinal_of(b: u32) -> (r: i64)
    ensures
        r == ordinal(b),
{
    let m: i64 = (b % SIGN_BIT) as i64;
    if b >= SIGN_BIT {
        -m
    } else {
        m
    }
}

/// `a <= b` on the numbers the patterns stand for.
pub fn value_le(a: u32, b: u32) -> (r: bool)
    ensures
        r == spec_value_le(a, b),
{
    !is_nan(a) && !is_nan(b) && ordinal_of(a) <= ordinal_of(b)
}

/// Law: on patterns that are not NaN the order is total and transitive,
/// the two zeros are equal, and a NaN is comparable with nothing.
pub proof fn lemma_value_order(a: u32, b: u32, c: u32)
    ensures
        !spec_is_nan(a) ==> spec_value_le(a, a),
        spec_value_le(a, b) && spec_value_le(b, c) ==> spec_value_le(a, c),
        !spec_is_nan(a) && !spec_is_nan(b) ==> spec_value_le(a, b) || spec_value_le(b, a),
        spec_value_le(ZERO_BITS, SIGN_BIT) && spec_value_le(SIGN_BIT, ZERO_BITS),
        spec_is_nan(a) ==> !spec_value_le(a, b) && !spec_value_le(b, a),
{
}

} // verus!
