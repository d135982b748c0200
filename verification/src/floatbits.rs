//! Comparisons of IEEE-754 binary64 values held as their bit patterns.
//!
//! The configuration and the proximity readings carry `f64` quantities. The
//! library holds them as the `u64` bit patterns that `f64::to_bits` gives, and
//! orders them as the values order: NaN compares false with everything, the
//! two zeros are equal, and otherwise the sign bit and the magnitude bits give
//! the order.

use vstd::prelude::*;

verus! {

/// The sign bit of a binary64 encoding.
pub const F64_SIGN_BIT: u64 = 0x8000_0000_0000_0000;

/// The bits of a binary64 encoding other than the sign.
pub const F64_MAGNITUDE_MASK: u64 = 0x7FFF_FFFF_FFFF_FFFF;

/// The magnitude bits of infinity; larger magnitudes are NaN.
pub const F64_INFINITY_MAGNITUDE: u64 = 0x7FF0_0000_0000_0000;

/// The encoding stands for NaN.
pub open spec fn f64_is_nan(b: u64) -> bool {
    (b & F64_MAGNITUDE_MASK) > F64_INFINITY_MAGNITUDE
}

/// An integer that orders non-NaN encodings as their values order: the
/// magnitude bits, negated for negative values. Both zeros map to 0.
pub open spec fn f64_ordinal(b: u64) -> int {
    if b >= F64_SIGN_BIT {
        -((b & F64_MAGNITUDE_MASK) as int)
    } else {
        (b & F64_MAGNITUDE_MASK) as int
    }
}

/// `a >= b` for the values that the encodings stand for.
pub open spec fn f64_ge(a: u64, b: u64) -> bool {
    !f64_is_nan(a) && !f64_is_nan(b) && f64_ordinal(a) >= f64_ordinal(b)
}

/// `a > b` for the values that the encodings stand for.
pub open spec fn f64_gt(a: u64, b: u64) -> bool {
    !f64_is_nan(a) && !f64_is_nan(b) && f64_ordinal(a) > f64_ordinal(b)
}

/// The value is greater than `0.0`.
pub open spec fn f64_positive(b: u64) -> bool {
    f64_gt(b, 0)
}

/// Computes `f64_ge(a, b)`.
pub fn f64_bits_ge(a: u64, b: u64) -> (r: bool)
    ensures
        r == f64_ge(a, b),
{
    let mag_a = a & F64_MAGNITUDE_MASK;
    let mag_b = b & F64_MAGNITUDE_MASK;
    if mag_a > F64_INFINITY_MAGNITUDE || mag_b > F64_INFINITY_MAGNITUDE {
        return false;
    }
    let neg_a = a >= F64_SIGN_BIT;
    let neg_b = b >= F64_SIGN_BIT;
    if !neg_a && !neg_b {
        mag_a >= mag_b
    } else if neg_a && neg_b {
        mag_a <= mag_b
    } else if !neg_a {
        true
    } else {
        mag_a == 0 && mag_b == 0
    }
}

/// Computes `f64_gt(a, b)`.
pub fn f64_bits_gt(a: u64, b: u64) -> (r: bool)
    ensures
        r == f64_gt(a, b),
{
    let mag_a = a & F64_MAGNITUDE_MASK;
    let mag_b = b & F64_MAGNITUDE_MASK;
    if mag_a > F64_INFINITY_MAGNITUDE || mag_b > F64_INFINITY_MAGNITUDE {
        return false;
    }
    let neg_a = a >= F64_SIGN_BIT;
    let neg_b = b >= F64_SIGN_BIT;
    if !neg_a && !neg_b {
        mag_a > mag_b
    } else if neg_a && neg_b {
        mag_a < mag_b
    } else if !neg_a {
        mag_a > 0 || mag_b > 0
    } else {
        false
    }
}

/// Computes `f64_positive(b)`.
pub fn f64_bits_positive(b: u64) -> (r: bool)
    ensures
        r == f64_positive(b),
{
    f64_bits_gt(b, 0)
}

} // verus!
