//! The complex value type, exercised against hardware IEEE 754 doubles.

use mandelbrot::complex::Complex;

fn mk(re: f64, im: f64) -> Complex {
    Complex::new(re.to_bits(), im.to_bits())
}

#[test]
fn add_two_reals() {
    let a = mk(2.0, 0.0);
    let b = mk(5.0, 0.0);
    let c = mk(-2.0, 0.0);

    assert_eq!(a.add(b), mk(7.0, 0.0));
    assert_eq!(a.add(c), Complex::zero())
}

#[test]
fn add_two_complex() {
    let a = mk(2.0, 3.0);
    let b = mk(4.0, -4.0);

    assert_eq!(a.add(b), mk(6.0, -1.0))
}

#[test]
fn mul_two_reals() {
    let a = mk(2.0, 0.0);
    let b = mk(5.0, 0.0);
    let mul = a.mul(b);
    let expected = mk(10.0, 0.0);

    assert_eq!(mul, expected, "expected: {expected:?}, actual: {mul:?}");
}

#[test]
fn mul_two_complexes() {
    let a = mk(2.0, 3.0);
    let b = mk(5.0, 6.0);

    let mul = a.mul(b);
    let expected = mk(-8.0, 27.0);

    assert_eq!(mul, expected, "expected: {expected:?}, actual: {mul:?}");
}

#[test]
fn norm_sq_of_two_three() {
    assert_eq!(mk(2.0, 3.0).norm_sq(), 13.0f64.to_bits())
}

#[test]
fn imaginary_unit_squares_to_minus_one() {
    let i = Complex::i();
    assert_eq!(i, mk(0.0, 1.0));
    assert_eq!(i.mul(i), mk(-1.0, 0.0));
}

#[test]
fn rounding_matches_hardware() {
    // values whose sum and product round: the library must land on the
    // same bit patterns as the hardware operations
    let x: f64 = 0.1;
    let y: f64 = 0.2;
    let a = mk(x, y);
    let b = mk(y, x);
    let sum = a.add(b);
    assert_eq!(sum, mk(x + y, y + x));
    let prod = a.mul(b);
    assert_eq!(prod, mk(x * y - y * x, x * x + y * y));
    assert_eq!(a.norm_sq(), (x * x + y * y).to_bits());
}
