//! IEEE 754 double-precision values, carried as their 64-bit patterns.
//!
//! The library does all of its plane arithmetic on `u64` bit patterns of
//! binary64 values. The rounding operations (sum, difference, product,
//! quotient, integer conversion) are performed by the `rustc_apfloat`
//! crate, in round-to-nearest, ties-to-even — the rounding that the
//! hardware operations use — and each result is given a name by an
//! uninterpreted spec function. The ordering comparison depends on the
//! bit patterns alone, so it is implemented here and verified against a
//! bit-level specification.

use rustc_apfloat::ieee::Double;
use rustc_apfloat::{Float, Round};
use vstd::prelude::*;

verus! {

/// Bit pattern of 1.0f64.
pub const F64_ONE_BITS: u64 = 0x3FF0_0000_0000_0000;

/// Bit pattern of 4.0f64: the square of the escape threshold 2.0.
pub const F64_FOUR_BITS: u64 = 0x4010_0000_0000_0000;

/// Bit pattern of positive infinity.
pub const F64_POS_INF_BITS: u64 = 0x7FF0_0000_0000_0000;

/// The magnitude bits of a binary64 value: the pattern with the sign cleared.
pub open spec fn abs_bits(b: u64) -> u64 {
    if b >= 0x8000_0000_0000_0000 {
        (b - 0x8000_0000_0000_0000) as u64
    } else {
        b
    }
}

/// Whether the sign bit is set.
pub open spec fn is_neg_bits(b: u64) -> bool {
    b >= 0x8000_0000_0000_0000
}

/// A NaN: all exponent bits set and a nonzero fraction.
pub open spec fn is_nan_bits(b: u64) -> bool {
    abs_bits(b) > 0x7FF0_0000_0000_0000
}

/// A finite value: at least one exponent bit clear.
pub open spec fn is_finite_bits(b: u64) -> bool {
    abs_bits(b) < 0x7FF0_0000_0000_0000
}

/// The quiet `<` of IEEE 754 on binary64 bit patterns: false when either
/// operand is NaN; the two zeros are equal regardless of sign; otherwise
/// values of equal sign order by their magnitude bits, negatives in
/// reverse.
pub open spec fn lt_bits_spec(a: u64, b: u64) -> bool {
    if is_nan_bits(a) || is_nan_bits(b) {
        false
    } else if is_neg_bits(a) != is_neg_bits(b) {
        is_neg_bits(a) && (abs_bits(a) != 0 || abs_bits(b) != 0)
    } else if !is_neg_bits(a) {
        abs_bits(a) < abs_bits(b)
    } else {
        abs_bits(b) < abs_bits(a)
    }
}

/// The quiet `<` of IEEE 754 on binary64 values given as bit patterns.
pub fn lt_bits(a: u64, b: u64) -> (r: bool)
    ensures
        r == lt_bits_spec(a, b),
{
    let abs_a: u64 = if a >= 0x8000_0000_0000_0000 {
        a - 0x8000_0000_0000_0000
    } else {
        a
    };
    let abs_b: u64 = if b >= 0x8000_0000_0000_0000 {
        b - 0x8000_0000_0000_0000
    } else {
        b
    };
    if abs_a > 0x7FF0_0000_0000_0000 || abs_b > 0x7FF0_0000_0000_0000 {
        false
    } else if (a >= 0x8000_0000_0000_0000) != (b >= 0x8000_0000_0000_0000) {
        a >= 0x8000_0000_0000_0000 && (abs_a != 0 || abs_b != 0)
    } else if a < 0x8000_0000_0000_0000 {
        abs_a < abs_b
    } else {
        abs_b < abs_a
    }
}

/// The IEEE 754 sum of two binary64 values, as bit patterns.
pub uninterp spec fn add_bits(a: u64, b: u64) -> u64;

/// The IEEE 754 difference of two binary64 values, as bit patterns.
pub uninterp spec fn sub_bits(a: u64, b: u64) -> u64;

/// The IEEE 754 product of two binary64 values, as bit patterns.
pub uninterp spec fn mul_bits(a: u64, b: u64) -> u64;

/// The IEEE 754 quotient of two binary64 values, as bit patterns.
pub uninterp spec fn div_bits(a: u64, b: u64) -> u64;

/// The binary64 value nearest to an unsigned 64-bit integer, as bits.
pub uninterp spec fn from_u64_bits(x: u64) -> u64;

/// Relies on rustc_apfloat::ieee::Double::add_r, round to nearest, ties
/// to even: the correctly rounded IEEE 754 sum. The sum of two positive
/// zeros is positive zero. Adding positive zero to a non-NaN value of
/// nonzero magnitude returns that value unchanged — the sum is exact and
/// an exact result is returned as it is; a NaN is excluded because
/// quieting may change its payload, and negative zero because
/// `-0 + +0` is `+0` in this rounding direction. A NaN operand always
/// propagates to a NaN sum, and positive infinity plus any non-negative
/// non-NaN value is positive infinity.
#[verifier::external_body]
pub(crate) fn fb_add(a: u64, b: u64) -> (r: u64)
    ensures
        r == add_bits(a, b),
        a == 0u64 && b == 0u64 ==> r == 0u64,
        b == 0u64 && !is_nan_bits(a) && abs_bits(a) != 0 ==> r == a,
        is_nan_bits(a) || is_nan_bits(b) ==> is_nan_bits(r),
        a == F64_POS_INF_BITS && !is_nan_bits(b) && !is_neg_bits(b) ==> r == F64_POS_INF_BITS,
        b == F64_POS_INF_BITS && !is_nan_bits(a) && !is_neg_bits(a) ==> r == F64_POS_INF_BITS,
{
    let x = Double::from_bits(a as u128);
    let y = Double::from_bits(b as u128);
    x.add_r(y, Round::NearestTiesToEven).value.to_bits() as u64
}

/// Relies on rustc_apfloat::ieee::Double::sub_r, round to nearest, ties
/// to even: the correctly rounded IEEE 754 difference. Positive zero
/// minus positive zero is positive zero in this rounding direction.
#[verifier::external_body]
pub(crate) fn fb_sub(a: u64, b: u64) -> (r: u64)
    ensures
        r == sub_bits(a, b),
        a == 0u64 && b == 0u64 ==> r == 0u64,
{
    let x = Double::from_bits(a as u128);
    let y = Double::from_bits(b as u128);
    x.sub_r(y, Round::NearestTiesToEven).value.to_bits() as u64
}

/// Relies on rustc_apfloat::ieee::Double::mul_r, round to nearest, ties
/// to even: the correctly rounded IEEE 754 product. The product of
/// positive zero with a positive finite value is positive zero: the
/// result is exact and its sign is the exclusive or of the signs. A NaN
/// operand always propagates to a NaN product. A square — a value
/// multiplied by itself — is never negative and never NaN (the NaN
/// operand and zero-times-infinity cases cannot arise), and the square
/// of an infinity is positive infinity.
#[verifier::external_body]
pub(crate) fn fb_mul(a: u64, b: u64) -> (r: u64)
    ensures
        r == mul_bits(a, b),
        a == 0u64 && !is_neg_bits(b) && is_finite_bits(b) ==> r == 0u64,
        b == 0u64 && !is_neg_bits(a) && is_finite_bits(a) ==> r == 0u64,
        is_nan_bits(a) || is_nan_bits(b) ==> is_nan_bits(r),
        a == b && !is_nan_bits(a) ==> !is_neg_bits(r) && !is_nan_bits(r),
        a == b && !is_nan_bits(a) && !is_finite_bits(a) ==> r == F64_POS_INF_BITS,
{
    let x = Double::from_bits(a as u128);
    let y = Double::from_bits(b as u128);
    x.mul_r(y, Round::NearestTiesToEven).value.to_bits() as u64
}

/// Relies on rustc_apfloat::ieee::Double::div_r, round to nearest, ties
/// to even: the correctly rounded IEEE 754 quotient. The reciprocal of a
/// finite value no smaller than one is positive, nonzero and no larger
/// than one: division is correctly rounded and monotone, one over one is
/// exactly one, and the true quotient of one by any finite value is far
/// above the underflow range.
#[verifier::external_body]
pub(crate) fn fb_div(a: u64, b: u64) -> (r: u64)
    ensures
        r == div_bits(a, b),
        a == F64_ONE_BITS && !is_neg_bits(b) && is_finite_bits(b) && b >= F64_ONE_BITS
            ==> !is_neg_bits(r) && r != 0u64 && r <= F64_ONE_BITS,
{
    let x = Double::from_bits(a as u128);
    let y = Double::from_bits(b as u128);
    x.div_r(y, Round::NearestTiesToEven).value.to_bits() as u64
}

/// Relies on rustc_apfloat::ieee::Double::from_u128_r, round to nearest,
/// ties to even: the binary64 value nearest the integer. Zero converts
/// to positive zero and one to one, both exactly; the conversion is
/// monotone and every 64-bit integer is far below the overflow
/// threshold, so a positive integer converts to a positive finite value
/// no smaller than one.
#[verifier::external_body]
pub(crate) fn fb_from_u64(x: u64) -> (r: u64)
    ensures
        r == from_u64_bits(x),
        x == 0u64 ==> r == 0u64,
        x >= 1u64 ==> !is_neg_bits(r) && is_finite_bits(r) && r >= F64_ONE_BITS,
{
    Double::from_u128_r(x as u128, Round::NearestTiesToEven).value.to_bits() as u64
}

} // verus!
