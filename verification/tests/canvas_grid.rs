//! The canvas, exercised against a plain hardware-double reference of the
//! escape-time computation.

use mandelbrot::canvas::{map_coord, Canvas};

/// The membership of one pixel, computed with hardware doubles exactly as
/// the canvas specifies: map with the full-span formula, square and add
/// for the whole fixed iteration count, then test the magnitude.
fn reference_member(x: usize, y: usize, w: usize, h: usize, iters: usize) -> bool {
    let x_step = 1.0 / w as f64;
    let y_step = 1.0 / h as f64;
    let cr = -3.0 + (x as f64 * x_step) * 6.0;
    let ci = -3.0 + (y as f64 * y_step) * 6.0;
    let mut ar = cr;
    let mut ai = ci;
    for _ in 0..iters {
        let nr = ar * ar - ai * ai;
        let ni = ar * ai + ar * ai;
        ar = nr + cr;
        ai = ni + ci;
    }
    f64::sqrt(ar * ar + ai * ai) < 2.0
}

#[test]
fn new_canvas_is_all_clear() {
    let canvas = Canvas::new(3, 2);
    assert_eq!(canvas.width(), 3);
    assert_eq!(canvas.height(), 2);
    for y in 0..2 {
        for x in 0..3 {
            assert!(!canvas.pixel(x, y));
        }
    }
}

#[test]
fn pixel_origin_maps_to_lower_corner() {
    for n in [1usize, 2, 3, 7, 512, 1000] {
        assert_eq!(map_coord(0, n), (-3.0f64).to_bits());
    }
}

#[test]
fn last_pixel_approaches_upper_edge() {
    for n in [2usize, 3, 7, 512, 1000] {
        let expected = -3.0 + ((n - 1) as f64 * (1.0 / n as f64)) * 6.0;
        let got = map_coord(n - 1, n);
        assert_eq!(got, expected.to_bits());
        assert!(f64::from_bits(got) < 3.0);
    }
}

#[test]
fn canvas_matches_hardware_reference() {
    let w = 8usize;
    let h = 7usize;
    let iters = 5usize;
    let mut canvas = Canvas::new(w, h);
    canvas.compute_mandelbrot_set(iters);
    for y in 0..h {
        for x in 0..w {
            assert_eq!(
                canvas.pixel(x, y),
                reference_member(x, y, w, h, iters),
                "pixel ({x}, {y})"
            );
        }
    }
}

#[test]
fn zero_iterations_gives_the_disk() {
    let mut canvas = Canvas::new(4, 4);
    canvas.compute_mandelbrot_set(0);
    // pixel (2, 2) samples the plane origin, inside the radius-2 disk
    assert!(canvas.pixel(2, 2));
    // pixel (0, 0) samples (-3, -3), far outside the disk
    assert!(!canvas.pixel(0, 0));
    for y in 0..4 {
        for x in 0..4 {
            assert_eq!(canvas.pixel(x, y), reference_member(x, y, 4, 4, 0));
        }
    }
}

#[test]
fn computation_is_deterministic() {
    let w = 6usize;
    let h = 5usize;
    let mut a = Canvas::new(w, h);
    let mut b = Canvas::new(w, h);
    a.compute_mandelbrot_set(4);
    b.compute_mandelbrot_set(4);
    for y in 0..h {
        for x in 0..w {
            assert_eq!(a.pixel(x, y), b.pixel(x, y));
        }
    }
}

#[test]
fn recomputation_is_monotone_and_stable() {
    let w = 5usize;
    let h = 5usize;
    let mut once = Canvas::new(w, h);
    let mut twice = Canvas::new(w, h);
    once.compute_mandelbrot_set(3);
    twice.compute_mandelbrot_set(3);
    twice.compute_mandelbrot_set(3);
    for y in 0..h {
        for x in 0..w {
            assert_eq!(once.pixel(x, y), twice.pixel(x, y));
        }
    }
}

#[test]
fn flat_pass_agrees_with_row_pass() {
    let w = 5usize;
    let h = 3usize;
    let mut by_rows = Canvas::new(w, h);
    let mut by_positions = Canvas::new(w, h);
    by_rows.do_compute_loops(6);
    by_positions.do_compute_iter(6);
    for y in 0..h {
        for x in 0..w {
            assert_eq!(by_rows.pixel(x, y), by_positions.pixel(x, y));
        }
    }
}
