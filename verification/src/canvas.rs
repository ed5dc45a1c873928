//! The Mandelbrot membership canvas.
//!
//! A canvas owns a width-by-height boolean grid, stored row-major as a
//! flat vector indexed by `y * width + x`. Computing the canvas maps
//! every pixel to a point of the fixed window [-3, 3] x [-3, 3] of the
//! complex plane, runs the fixed-iteration escape test there, and sets
//! the cell when the point is classified a member. A cell once set is
//! never cleared, so recomputation is monotone.

use crate::complex::{complex_zero, Complex};
use crate::float_bits::{
    add_bits, div_bits, fb_add, fb_div, fb_from_u64, fb_mul, from_u64_bits, lt_bits,
    lt_bits_spec, mul_bits, F64_FOUR_BITS, F64_ONE_BITS,
};
use vstd::arithmetic::div_mod::{lemma_fundamental_div_mod, lemma_mod_bound};
use vstd::prelude::*;

verus! {

/// Bit pattern of -3.0f64: the lower edge of the sampled window on both
/// axes.
pub const DOMAIN_MIN_BITS: u64 = 0xC008_0000_0000_0000;

/// Bit pattern of 6.0f64: the span of the sampled window on both axes.
pub const DOMAIN_SPAN_BITS: u64 = 0x4018_0000_0000_0000;

/// The flat position of pixel (x, y) in a row-major grid of width w.
pub open spec fn row_major(x: usize, y: usize, w: usize) -> int {
    y as int * w as int + x as int
}

/// The plane coordinate sampled at pixel k of an axis with n pixels:
/// `-3.0 + (k * (1 / n)) * 6.0`, every operation rounded to nearest.
/// The per-pixel step is `1 / n`, yet the factor is the full span of the
/// window, so the samples sweep the whole window as k runs over the axis.
pub open spec fn coord_bits(k: usize, n: usize) -> u64 {
    add_bits(
        DOMAIN_MIN_BITS,
        mul_bits(
            mul_bits(from_u64_bits(k as u64), div_bits(F64_ONE_BITS, from_u64_bits(n as u64))),
            DOMAIN_SPAN_BITS,
        ),
    )
}

/// The complex point sampled at pixel (x, y) of a w-by-h grid.
pub open spec fn point_at(x: usize, y: usize, w: usize, h: usize) -> Complex {
    Complex { re: coord_bits(x, w), im: coord_bits(y, h) }
}

/// The value of the escape recurrence after n steps: it starts at the
/// point itself, and each step squares the accumulator and adds the
/// point back.
pub open spec fn escape_iter(c: Complex, n: nat) -> Complex
    decreases n,
{
    if n == 0 {
        c
    } else {
        let p = escape_iter(c, (n - 1) as nat);
        p.mul_spec(p).add_spec(c)
    }
}

/// Membership under the fixed-iteration escape test: after exactly n
/// steps — no early exit — the squared magnitude of the accumulator is
/// still below 4.0. Comparing the squared magnitude against 4.0 decides
/// exactly whether the rounded magnitude is below 2.0: the correctly
/// rounded square root is monotone and carries 4.0 to 2.0 exactly.
pub open spec fn in_set(c: Complex, n: nat) -> bool {
    lt_bits_spec(escape_iter(c, n).norm_sq_spec(), F64_FOUR_BITS)
}

/// What one computation with a given iteration count does to the bitmap:
/// every cell receives the disjunction of its old value with the
/// membership of the point sampled at its own coordinates.
pub open spec fn compute_post(
    old_px: Seq<bool>,
    px: Seq<bool>,
    w: usize,
    h: usize,
    iters: usize,
) -> bool {
    &&& px.len() == old_px.len()
    &&& forall|xx: usize, yy: usize|
        xx < w && yy < h ==> px[#[trigger] row_major(xx, yy, w)] == (old_px[row_major(xx, yy, w)]
            || in_set(point_at(xx, yy, w, h), iters as nat))
}

/// A flat row-major position lies inside the grid.
proof fn lemma_row_major_bound(x: usize, y: usize, w: usize, h: usize)
    requires
        x < w,
        y < h,
    ensures
        0 <= row_major(x, y, w) < w as int * h as int,
{
    assert((y as int) * (w as int) + (x as int) < (w as int) * (h as int)) by (nonlinear_arith)
        requires
            x < w,
            y < h,
    ;
}

/// Two pixel pairs with the same flat position are the same pair.
proof fn lemma_row_major_inj(x1: usize, y1: usize, x2: usize, y2: usize, w: usize)
    requires
        x1 < w,
        x2 < w,
        row_major(x1, y1, w) == row_major(x2, y2, w),
    ensures
        x1 == x2,
        y1 == y2,
{
    assert(x1 == x2 && y1 == y2) by (nonlinear_arith)
        requires
            x1 < w,
            x2 < w,
            y1 as int * w as int + x1 as int == y2 as int * w as int + x2 as int,
    ;
}

/// Decides membership of a point under the fixed-iteration escape test:
/// exactly `iterations` squaring steps, then the threshold comparison,
/// with no early exit. The origin never moves, so it is always a member;
/// an accumulator that has overflowed to infinity or degenerated to NaN
/// fails the threshold comparison, so such a point is classified a
/// non-member rather than signalling an error.
pub fn is_in_mandelbrot_set(c: Complex, iterations: usize) -> (r: bool)
    ensures
        r == in_set(c, iterations as nat),
        c == complex_zero() ==> r,
        !escape_iter(c, iterations as nat).has_finite_parts() ==> !r,
{
    let mut accum = c;
    for k in 0..iterations
        invariant
            accum == escape_iter(c, k as nat),
            c == complex_zero() ==> accum == complex_zero(),
    {
        accum = accum.mul(accum).add(c);
        assert(accum == escape_iter(c, (k + 1) as nat));
    }
    let q = accum.norm_sq();
    lt_bits(q, F64_FOUR_BITS)
}

/// The plane coordinate sampled at pixel k of an axis with n pixels.
/// Pixel 0 of an axis with at least one pixel lies on the window's lower
/// edge, -3.0, exactly.
pub fn map_coord(k: usize, n: usize) -> (r: u64)
    ensures
        r == coord_bits(k, n),
        k == 0 && n >= 1 ==> r == DOMAIN_MIN_BITS,
{
    let kf = fb_from_u64(k as u64);
    let nf = fb_from_u64(n as u64);
    let step = fb_div(F64_ONE_BITS, nf);
    let scaled = fb_mul(fb_mul(kf, step), DOMAIN_SPAN_BITS);
    fb_add(DOMAIN_MIN_BITS, scaled)
}

/// A width-by-height boolean membership bitmap over the fixed window of
/// the complex plane, stored row-major.
pub struct Canvas {
    width: usize,
    height: usize,
    pixels: Vec<bool>,
}

impl Canvas {
    /// The grid width, in pixels.
    pub closed spec fn spec_width(&self) -> usize {
        self.width
    }

    /// The grid height, in pixels.
    pub closed spec fn spec_height(&self) -> usize {
        self.height
    }

    /// The cells, row-major.
    pub closed spec fn spec_pixels(&self) -> Seq<bool> {
        self.pixels@
    }

    /// The bitmap holds exactly width * height cells.
    pub open spec fn well_formed(&self) -> bool {
        self.spec_pixels().len() == self.spec_width() as int * self.spec_height() as int
    }

    /// Allocates a canvas with every cell clear. The product of the
    /// dimensions must fit a machine word, the one machine limit here.
    pub fn new(width: usize, height: usize) -> (c: Canvas)
        requires
            width as int * height as int <= usize::MAX as int,
        ensures
            c.well_formed(),
            c.spec_width() == width,
            c.spec_height() == height,
            forall|i: int| 0 <= i < c.spec_pixels().len() ==> !c.spec_pixels()[i],
    {
        let size: usize = width * height;
        let mut pixels: Vec<bool> = Vec::new();
        for k in 0..size
            invariant
                pixels@.len() == k,
                forall|i: int| 0 <= i < k ==> !pixels@[i],
        {
            pixels.push(false);
        }
        Canvas { width: width, height: height, pixels: pixels }
    }

    /// The grid width, in pixels.
    pub fn width(&self) -> (w: usize)
        ensures
            w == self.spec_width(),
    {
        self.width
    }

    /// The grid height, in pixels.
    pub fn height(&self) -> (h: usize)
        ensures
            h == self.spec_height(),
    {
        self.height
    }

    /// Reads the cell of pixel (x, y).
    pub fn pixel(&self, x: usize, y: usize) -> (b: bool)
        requires
            self.well_formed(),
            x < self.spec_width(),
            y < self.spec_height(),
        ensures
            b == self.spec_pixels()[row_major(x, y, self.spec_width())],
    {
        let n: usize = self.pixels.len();
        proof {
            lemma_row_major_bound(x, y, self.width, self.height);
        }
        let idx: usize = y * self.width + x;
        self.pixels[idx]
    }

    /// Evaluates one pixel: maps it to its plane point, runs the escape
    /// test there, and sets the cell when the point is a member; a cell
    /// of a non-member keeps its value.
    pub fn compute_pixel(&mut self, x: usize, y: usize, iterations: usize)
        requires
            old(self).well_formed(),
            x < old(self).spec_width(),
            y < old(self).spec_height(),
        ensures
            final(self).well_formed(),
            final(self).spec_width() == old(self).spec_width(),
            final(self).spec_height() == old(self).spec_height(),
            final(self).spec_pixels() == old(self).spec_pixels().update(
                row_major(x, y, old(self).spec_width()),
                old(self).spec_pixels()[row_major(x, y, old(self).spec_width())] || in_set(
                    point_at(x, y, old(self).spec_width(), old(self).spec_height()),
                    iterations as nat,
                ),
            ),
    {
        proof {
            lemma_row_major_bound(x, y, self.width, self.height);
        }
        let ghost idx_spec = row_major(x, y, self.width);
        let re = map_coord(x, self.width);
        let im = map_coord(y, self.height);
        let c = Complex::new(re, im);
        let member = is_in_mandelbrot_set(c, iterations);
        let n: usize = self.pixels.len();
        let idx: usize = y * self.width + x;
        if member {
            self.pixels.set(idx, true);
        }
        proof {
            if !member {
                assert(self.pixels@ =~= old(self).pixels@.update(
                    idx_spec,
                    old(self).pixels@[idx_spec] || false,
                ));
            }
        }
    }

    /// Runs the escape-time computation over the whole grid and stores
    /// each pixel's membership: every cell of the bitmap ends fully
    /// determined by its own coordinates and the iteration count.
    pub fn compute_mandelbrot_set(&mut self, iterations: usize)
        requires
            old(self).well_formed(),
        ensures
            final(self).well_formed(),
            final(self).spec_width() == old(self).spec_width(),
            final(self).spec_height() == old(self).spec_height(),
            compute_post(
                old(self).spec_pixels(),
                final(self).spec_pixels(),
                old(self).spec_width(),
                old(self).spec_height(),
                iterations,
            ),
    {
        self.do_compute_loops(iterations);
    }

    /// Visits the grid row by row, evaluating every pixel once.
    pub fn do_compute_loops(&mut self, iterations: usize)
        requires
            old(self).well_formed(),
        ensures
            final(self).well_formed(),
            final(self).spec_width() == old(self).spec_width(),
            final(self).spec_height() == old(self).spec_height(),
            compute_post(
                old(self).spec_pixels(),
                final(self).spec_pixels(),
                old(self).spec_width(),
                old(self).spec_height(),
                iterations,
            ),
    {
        let w: usize = self.width;
        let h: usize = self.height;
        let mut y: usize = 0;
        while y < h
            invariant
                y <= h,
                self.width == w,
                self.height == h,
                self.well_formed(),
                self.pixels@.len() == old(self).pixels@.len(),
                forall|xx: usize, yy: usize|
                    xx < w && yy < y ==> self.pixels@[#[trigger] row_major(xx, yy, w)] == (old(
                        self,
                    ).pixels@[row_major(xx, yy, w)] || in_set(
                        point_at(xx, yy, w, h),
                        iterations as nat,
                    )),
                forall|i: int|
                    y as int * w as int <= i < self.pixels@.len() ==> self.pixels@[i] == old(
                        self,
                    ).pixels@[i],
            decreases h - y,
        {
            let mut x: usize = 0;
            while x < w
                invariant
                    x <= w,
                    y < h,
                    self.width == w,
                    self.height == h,
                    self.well_formed(),
                    self.pixels@.len() == old(self).pixels@.len(),
                    forall|xx: usize, yy: usize|
                        xx < w && yy < y ==> self.pixels@[#[trigger] row_major(xx, yy, w)] == (old(
                            self,
                        ).pixels@[row_major(xx, yy, w)] || in_set(
                            point_at(xx, yy, w, h),
                            iterations as nat,
                        )),
                    forall|xx: usize|
                        xx < x ==> self.pixels@[#[trigger] row_major(xx, y, w)] == (old(
                            self,
                        ).pixels@[row_major(xx, y, w)] || in_set(
                            point_at(xx, y, w, h),
                            iterations as nat,
                        )),
                    forall|i: int|
                        y as int * w as int + x as int <= i < self.pixels@.len()
                            ==> self.pixels@[i] == old(self).pixels@[i],
                decreases w - x,
            {
                proof {
                    lemma_row_major_bound(x, y, w, h);
                }
                self.compute_pixel(x, y, iterations);
                assert forall|xx: usize, yy: usize| xx < w && yy < y
                    ==> self.pixels@[#[trigger] row_major(xx, yy, w)] == (old(
                    self,
                ).pixels@[row_major(xx, yy, w)] || in_set(
                    point_at(xx, yy, w, h),
                    iterations as nat,
                )) by {
                    if xx < w && yy < y {
                        assert(row_major(xx, yy, w) < row_major(0, y, w)) by (nonlinear_arith)
                            requires
                                xx < w,
                                yy < y,
                        ;
                    }
                }
                x = x + 1;
            }
            proof {
                assert((y as int + 1) * (w as int) == (y as int) * (w as int) + (w as int))
                    by (nonlinear_arith);
            }
            y = y + 1;
        }
    }

    /// Visits the grid by a single pass over the flat index space: the
    /// column of a position is its remainder by the width, the row its
    /// quotient by the width.
    pub fn do_compute_iter(&mut self, iterations: usize)
        requires
            old(self).well_formed(),
        ensures
            final(self).well_formed(),
            final(self).spec_width() == old(self).spec_width(),
            final(self).spec_height() == old(self).spec_height(),
            compute_post(
                old(self).spec_pixels(),
                final(self).spec_pixels(),
                old(self).spec_width(),
                old(self).spec_height(),
                iterations,
            ),
    {
        let w: usize = self.width;
        let h: usize = self.height;
        let n: usize = self.pixels.len();
        let size: usize = w * h;
        let mut pos: usize = 0;
        while pos < size
            invariant
                pos <= size,
                size == w as int * h as int,
                self.width == w,
                self.height == h,
                self.well_formed(),
                self.pixels@.len() == old(self).pixels@.len(),
                forall|xx: usize, yy: usize|
                    xx < w && yy < h && row_major(xx, yy, w) < pos ==> self.pixels@[#[trigger] row_major(
                        xx,
                        yy,
                        w,
                    )] == (old(self).pixels@[row_major(xx, yy, w)] || in_set(
                        point_at(xx, yy, w, h),
                        iterations as nat,
                    )),
                forall|i: int|
                    pos <= i < self.pixels@.len() ==> self.pixels@[i] == old(self).pixels@[i],
            decreases size - pos,
        {
            proof {
                assert(w > 0) by (nonlinear_arith)
                    requires
                        pos < size,
                        size == (w as int) * (h as int),
                ;
            }
            let x: usize = pos % w;
            let y: usize = pos / w;
            proof {
                lemma_fundamental_div_mod(pos as int, w as int);
                lemma_mod_bound(pos as int, w as int);
                assert(y < h) by (nonlinear_arith)
                    requires
                        pos < size,
                        size == (w as int) * (h as int),
                        y == pos as int / w as int,
                        w > 0,
                ;
                assert((y as int) * (w as int) == (w as int) * (y as int)) by (nonlinear_arith);
                assert(row_major(x, y, w) == pos);
            }
            self.compute_pixel(x, y, iterations);
            assert forall|xx: usize, yy: usize| xx < w && yy < h && row_major(xx, yy, w) < pos + 1
                ==> self.pixels@[#[trigger] row_major(xx, yy, w)] == (old(
                self,
            ).pixels@[row_major(xx, yy, w)] || in_set(
                point_at(xx, yy, w, h),
                iterations as nat,
            )) by {
                if xx < w && yy < h && row_major(xx, yy, w) == pos {
                    lemma_row_major_inj(xx, yy, x, y, w);
                }
            }
            pos = pos + 1;
        }
        proof {
            lemma_all_cells_reached(self.pixels@, old(self).pixels@, w, h, iterations, size as int);
        }
    }
}

/// Every pixel pair of the grid has its flat position below the grid's
/// size, so a pass that has handled every position below the size has
/// handled every pair.
proof fn lemma_all_cells_reached(
    px: Seq<bool>,
    old_px: Seq<bool>,
    w: usize,
    h: usize,
    iters: usize,
    size: int,
)
    requires
        size == w as int * h as int,
        px.len() == old_px.len(),
        forall|xx: usize, yy: usize|
            xx < w && yy < h && row_major(xx, yy, w) < size ==> px[#[trigger] row_major(xx, yy, w)]
                == (old_px[row_major(xx, yy, w)] || in_set(point_at(xx, yy, w, h), iters as nat)),
    ensures
        compute_post(old_px, px, w, h, iters),
{
    assert forall|xx: usize, yy: usize| xx < w && yy < h
        ==> px[#[trigger] row_major(xx, yy, w)] == (old_px[row_major(xx, yy, w)] || in_set(
        point_at(xx, yy, w, h),
        iters as nat,
    )) by {
        if xx < w && yy < h {
            lemma_row_major_bound(xx, yy, w, h);
        }
    }
}

/// The law of the degenerate test: with no squaring steps the recurrence
/// value is the point itself, so membership is the squared-magnitude
/// threshold test on the point's own coordinates.
pub proof fn lemma_zero_iterations(c: Complex)
    ensures
        in_set(c, 0) == lt_bits_spec(c.norm_sq_spec(), F64_FOUR_BITS),
{
    assert(escape_iter(c, 0) == c);
}

/// The law of determinism: the computed bitmap is a function of the
/// starting bitmap and of (width, height, iterations) alone, so two
/// computations from equal bitmaps with equal parameters agree cell for
/// cell.
pub proof fn lemma_compute_deterministic(
    before: Seq<bool>,
    a: Seq<bool>,
    b: Seq<bool>,
    w: usize,
    h: usize,
    iters: usize,
)
    requires
        before.len() == w as int * h as int,
        compute_post(before, a, w, h, iters),
        compute_post(before, b, w, h, iters),
    ensures
        a == b,
{
    assert forall|i: int| 0 <= i < a.len() ==> a[i] == b[i] by {
        if 0 <= i < a.len() {
            lemma_cell_value(before, a, w, h, iters, i);
            lemma_cell_value(before, b, w, h, iters, i);
        }
    }
    assert(a =~= b);
}

/// The value a computation leaves in one flat cell, written through the
/// cell's unique pixel pair.
proof fn lemma_cell_value(before: Seq<bool>, px: Seq<bool>, w: usize, h: usize, iters: usize, i: int)
    requires
        before.len() == w as int * h as int,
        compute_post(before, px, w, h, iters),
        0 <= i < px.len(),
    ensures
        px[i] == (before[i] || in_set(
            point_at((i % (w as int)) as usize, (i / (w as int)) as usize, w, h),
            iters as nat,
        )),
{
    assert(w > 0) by (nonlinear_arith)
        requires
            0 <= i < (w as int) * (h as int),
    ;
    let xi = i % (w as int);
    let yi = i / (w as int);
    lemma_fundamental_div_mod(i, w as int);
    lemma_mod_bound(i, w as int);
    assert(0 <= yi < h as int) by (nonlinear_arith)
        requires
            0 <= i < (w as int) * (h as int),
            w > 0,
            yi == i / (w as int),
    ;
    let x = xi as usize;
    let y = yi as usize;
    assert((y as int) * (w as int) == (w as int) * (y as int)) by (nonlinear_arith);
    assert(row_major(x, y, w) == i);
}

} // verus!
