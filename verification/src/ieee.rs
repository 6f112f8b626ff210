//! Order, equality and integer truncation of IEEE-754 single-precision
//! values, computed directly on their bit patterns.
//!
//! A value is carried as the `u32` holding its bit pattern. The standard
//! orders non-NaN values exactly as their sign-magnitude keys: the magnitude
//! bits compared as an integer, negated when the sign bit is set. The two
//! zeros share the key zero and so compare equal; a NaN compares with nothing,
//! not even itself. Truncation follows the saturating cast of a
//! single-precision value to `u32`: NaN and every negative value go to zero,
//! and anything at or above two to the thirty-second power goes to the
//! largest `u32`.

use vstd::prelude::*;

verus! {

/// The bit pattern holds a NaN: exponent bits all set, fraction nonzero.
pub open spec fn is_nan(b: u32) -> bool {
    (b >> 23) & 0xFF == 0xFF && b & 0x7FFFFF != 0
}

/// The sign-magnitude key ordering non-NaN bit patterns by numeric value.
pub open spec fn order_key(b: u32) -> int {
    if b >> 31 == 1 {
        -((b & 0x7FFF_FFFF) as int)
    } else {
        (b & 0x7FFF_FFFF) as int
    }
}

/// Strictly-less comparison of two single-precision bit patterns.
pub open spec fn spec_lt(a: u32, b: u32) -> bool {
    !is_nan(a) && !is_nan(b) && order_key(a) < order_key(b)
}

/// Less-or-equal comparison of two single-precision bit patterns.
pub open spec fn spec_le(a: u32, b: u32) -> bool {
    !is_nan(a) && !is_nan(b) && order_key(a) <= order_key(b)
}

/// Numeric equality of two single-precision bit patterns.
pub open spec fn spec_eq(a: u32, b: u32) -> bool {
    !is_nan(a) && !is_nan(b) && order_key(a) == order_key(b)
}

/// The fraction bits with the implied leading one of a normal value.
pub open spec fn mantissa(b: u32) -> u32 {
    (b & 0x7FFFFF) | 0x800000
}

/// The value of the saturating cast of a single-precision value to `u32`,
/// computed from its bit pattern. The biased exponent 127 marks one; 150
/// marks two to the twenty-third power, at and below which truncation shifts
/// the mantissa right; 159 marks two to the thirty-second power, from which
/// on the cast saturates.
pub open spec fn spec_trunc(b: u32) -> u32 {
    let e = (b >> 23) & 0xFF;
    if b >> 31 == 1 {
        0
    } else if e == 0xFF {
        if b & 0x7FFFFF != 0 {
            0
        } else {
            0xFFFF_FFFFu32
        }
    } else if e < 127 {
        0
    } else if e <= 150 {
        mantissa(b) >> ((150 - e) as u32)
    } else if e < 159 {
        mantissa(b) << ((e - 150) as u32)
    } else {
        0xFFFF_FFFFu32
    }
}

/// Whether the bit pattern holds a NaN.
pub fn nan_bits(b: u32) -> (r: bool)
    ensures
        r == is_nan(b),
{
    (b >> 23) & 0xFF == 0xFF && b & 0x7FFFFF != 0
}

/// The sign-magnitude key of a bit pattern, as a machine integer.
fn key(b: u32) -> (k: i64)
    ensures
        k as int == order_key(b),
{
    let mag = (b & 0x7FFF_FFFF) as i64;
    if b >> 31 == 1 {
        -mag
    } else {
        mag
    }
}

/// Strictly-less comparison of two single-precision bit patterns.
pub fn lt(a: u32, b: u32) -> (r: bool)
    ensures
        r == spec_lt(a, b),
{
    if nan_bits(a) || nan_bits(b) {
        false
    } else {
        key(a) < key(b)
    }
}

/// Less-or-equal comparison of two single-precision bit patterns.
pub fn le(a: u32, b: u32) -> (r: bool)
    ensures
        r == spec_le(a, b),
{
    if nan_bits(a) || nan_bits(b) {
        false
    } else {
        key(a) <= key(b)
    }
}

/// Numeric equality of two single-precision bit patterns.
pub fn eq(a: u32, b: u32) -> (r: bool)
    ensures
        r == spec_eq(a, b),
{
    if nan_bits(a) || nan_bits(b) {
        false
    } else {
        key(a) == key(b)
    }
}

/// The saturating cast of a single-precision value to `u32`, computed from
/// its bit pattern.
pub fn trunc(b: u32) -> (r: u32)
    ensures
        r == spec_trunc(b),
{
    let e = (b >> 23) & 0xFF;
    proof {
        assert((b >> 23) & 0xFF < 0x100) by (bit_vector);
    }
    if b >> 31 == 1 {
        0
    } else if e == 0xFF {
        if b & 0x7FFFFF != 0 {
            0
        } else {
            0xFFFF_FFFF
        }
    } else if e < 127 {
        0
    } else if e <= 150 {
        let m = (b & 0x7FFFFF) | 0x800000;
        m >> (150 - e)
    } else if e < 159 {
        let m = (b & 0x7FFFFF) | 0x800000;
        m << (e - 150)
    } else {
        0xFFFF_FFFF
    }
}

} // verus!
