//! The ordering of IEEE-754 binary32 values, read from their bit patterns.

use vstd::prelude::*;

verus! {

/// Bit pattern of the largest magnitude that is not a NaN (infinity).
pub const INFINITY_MAGNITUDE: u32 = 0x7f80_0000;

/// Weight of the sign bit.
pub const SIGN_BIT: u32 = 0x8000_0000;

/// The bits below the sign: exponent and mantissa.
pub open spec fn magnitude(b: u32) -> int {
    (b % SIGN_BIT) as int
}

/// A NaN has an all-ones exponent and a non-zero mantissa.
pub open spec fn is_nan_bits(b: u32) -> bool {
    magnitude(b) > INFINITY_MAGNITUDE as int
}

/// Position of a non-NaN value on the number line: the magnitude bits,
/// negated when the sign bit is set. Both zeros sit at 0.
pub open spec fn key_of(b: u32) -> int {
    if b >= SIGN_BIT {
        -magnitude(b)
    } else {
        magnitude(b)
    }
}

/// `a <= b` as IEEE-754 compares: false whenever either side is a NaN.
pub open spec fn f32_le(a: u32, b: u32) -> bool {
    !is_nan_bits(a) && !is_nan_bits(b) && key_of(a) <= key_of(b)
}

/// Whether the bit pattern encodes a NaN.
pub fn bits_is_nan(b: u32) -> (r: bool)
    ensures
        r == is_nan_bits(b),
{
    b % SIGN_BIT > INFINITY_MAGNITUDE
}

/// The position of `b` on the number line, as `key_of` defines it.
pub fn order_key(b: u32) -> (k: i64)
    ensures
        k == key_of(b),
{
    let m = b % SIGN_BIT;
    if b >= SIGN_BIT {
        -(m as i64)
    } else {
        m as i64
    }
}

/// `a <= b` on the values that the two bit patterns encode.
pub fn bits_le(a: u32, b: u32) -> (r: bool)
    ensures
        r == f32_le(a, b),
{
    !bits_is_nan(a) && !bits_is_nan(b) && order_key(a) <= order_key(b)
}

} // verus!
