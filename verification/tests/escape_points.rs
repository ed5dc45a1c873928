//! Known escape-time scenarios at chosen points of the plane.

use mandelbrot::canvas::is_in_mandelbrot_set;
use mandelbrot::complex::Complex;

#[test]
fn origin_is_always_a_member() {
    let origin = Complex::zero();
    for iters in 0..64usize {
        assert!(is_in_mandelbrot_set(origin, iters), "iterations {iters}");
    }
}

#[test]
fn non_finite_points_are_non_members() {
    // an overflowed accumulator becomes infinite, then NaN, and both
    // fail the threshold comparison
    let inf = Complex::new(f64::INFINITY.to_bits(), 0.0f64.to_bits());
    let nan = Complex::new(f64::NAN.to_bits(), 0.0f64.to_bits());
    for iters in 0..8usize {
        assert!(!is_in_mandelbrot_set(inf, iters), "iterations {iters}");
        assert!(!is_in_mandelbrot_set(nan, iters), "iterations {iters}");
    }
}

#[test]
fn far_corner_diverges_for_any_positive_count() {
    let corner = Complex::new(3.0f64.to_bits(), 3.0f64.to_bits());
    for iters in 1..32usize {
        assert!(!is_in_mandelbrot_set(corner, iters), "iterations {iters}");
    }
}
