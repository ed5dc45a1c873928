//! A verified escape-time renderer for the Mandelbrot set.
//!
//! The library computes a boolean membership bitmap of the Mandelbrot set
//! over the fixed square window [-3, 3] x [-3, 3] of the complex plane.
//! Double-precision values are carried as their IEEE 754 bit patterns, and
//! the rounding arithmetic on them is done by the `rustc_apfloat` crate
//! behind trusted wrappers; everything around those operations is verified.

pub mod canvas;
pub mod complex;
pub mod float_bits;
