//! Complex numbers over binary64 bit patterns.
//!
//! A value holds the IEEE 754 bit patterns of its real and imaginary
//! parts. The operations mirror the usual complex sum and product, each
//! intermediate rounding named precisely, so a caller knows the exact bit
//! pattern of every result in terms of the named rounding operations.

use crate::float_bits::{
    abs_bits, add_bits, fb_add, fb_mul, fb_sub, is_finite_bits, is_nan_bits, mul_bits, sub_bits,
    F64_POS_INF_BITS,
};
use vstd::prelude::*;

verus! {

/// A point of the complex plane: the bit patterns of its two binary64
/// coordinates.
#[derive(Clone, Copy, Debug, PartialEq, Eq, Structural)]
pub struct Complex {
    /// Bit pattern of the real part.
    pub re: u64,
    /// Bit pattern of the imaginary part.
    pub im: u64,
}

/// The additive identity: both parts positive zero.
pub open spec fn complex_zero() -> Complex {
    Complex { re: 0u64, im: 0u64 }
}

impl Complex {
    /// The component-wise sum.
    pub open spec fn add_spec(self, rhs: Complex) -> Complex {
        Complex { re: add_bits(self.re, rhs.re), im: add_bits(self.im, rhs.im) }
    }

    /// The complex product: real part `a*c - b*d`, imaginary part
    /// `a*d + c*b`, every operation rounded as IEEE 754 prescribes.
    pub open spec fn mul_spec(self, rhs: Complex) -> Complex {
        Complex {
            re: sub_bits(mul_bits(self.re, rhs.re), mul_bits(self.im, rhs.im)),
            im: add_bits(mul_bits(self.re, rhs.im), mul_bits(rhs.re, self.im)),
        }
    }

    /// The squared Euclidean norm: the rounded sum of the rounded squares
    /// of the parts.
    pub open spec fn norm_sq_spec(self) -> u64 {
        add_bits(mul_bits(self.re, self.re), mul_bits(self.im, self.im))
    }

    /// Both parts are finite: neither is a NaN or an infinity.
    pub open spec fn has_finite_parts(self) -> bool {
        is_finite_bits(self.re) && is_finite_bits(self.im)
    }

    /// Builds a value from the bit patterns of its parts.
    pub fn new(re: u64, im: u64) -> (r: Complex)
        ensures
            r == (Complex { re: re, im: im }),
    {
        Complex { re: re, im: im }
    }

    /// The additive identity (0, 0).
    pub fn zero() -> (r: Complex)
        ensures
            r == complex_zero(),
    {
        Complex { re: 0u64, im: 0u64 }
    }

    /// The imaginary unit (0, 1).
    pub fn i() -> (r: Complex)
        ensures
            r == (Complex { re: 0u64, im: crate::float_bits::F64_ONE_BITS }),
    {
        Complex { re: 0u64, im: crate::float_bits::F64_ONE_BITS }
    }

    /// The component-wise sum. The sum of two zeros is zero, and the zero
    /// value is the additive identity for values whose parts are non-NaN
    /// and of nonzero magnitude: such a value comes back bit for bit. A
    /// negative-zero part comes back as positive zero — equal under IEEE
    /// comparison, though the bit patterns differ — and a NaN part may
    /// come back with another payload.
    pub fn add(self, rhs: Complex) -> (r: Complex)
        ensures
            r == self.add_spec(rhs),
            self == complex_zero() && rhs == complex_zero() ==> r == complex_zero(),
            rhs == complex_zero() && !is_nan_bits(self.re) && !is_nan_bits(self.im)
                && abs_bits(self.re) != 0 && abs_bits(self.im) != 0 ==> r == self,
    {
        let re = fb_add(self.re, rhs.re);
        let im = fb_add(self.im, rhs.im);
        Complex { re: re, im: im }
    }

    /// The complex product. The product of two zeros is zero.
    pub fn mul(self, rhs: Complex) -> (r: Complex)
        ensures
            r == self.mul_spec(rhs),
            self == complex_zero() && rhs == complex_zero() ==> r == complex_zero(),
    {
        let a = self.re;
        let c = rhs.re;
        let b = self.im;
        let d = rhs.im;
        let re = fb_sub(fb_mul(a, c), fb_mul(b, d));
        let im = fb_add(fb_mul(a, d), fb_mul(c, b));
        Complex { re: re, im: im }
    }

    /// The squared Euclidean norm, as the bit pattern of a binary64
    /// value. The squared norm of zero is positive zero, and the squared
    /// norm of a value with a NaN or infinite part is a NaN or positive
    /// infinity — never a value below the escape threshold.
    pub fn norm_sq(&self) -> (r: u64)
        ensures
            r == self.norm_sq_spec(),
            *self == complex_zero() ==> r == 0u64,
            !self.has_finite_parts() ==> is_nan_bits(r) || r == F64_POS_INF_BITS,
    {
        let a = self.re;
        let b = self.im;
        fb_add(fb_mul(a, a), fb_mul(b, b))
    }
}

} // verus!
