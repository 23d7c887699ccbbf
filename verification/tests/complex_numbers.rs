use ac_circuit::math::complex::Complex;

#[test]
fn times_imaginary_is_a_quarter_turn() {
    let z = Complex { re: 3, im: 4 };
    assert_eq!(z.times_imaginary(), Complex { re: -4, im: 3 });
    assert_eq!(
        z.times_imaginary().times_imaginary().times_imaginary().times_imaginary(),
        z
    );
    let w = Complex { re: 1.5, im: -2.0 };
    assert_eq!(w.times_imaginary(), Complex { re: 2.0, im: 1.5 });
}

#[test]
fn sum_and_difference_are_taken_by_components() {
    let a = Complex { re: 1, im: 2 };
    let b = Complex { re: 10, im: -20 };
    assert_eq!(a + b, Complex { re: 11, im: -18 });
    assert_eq!(a - b, Complex { re: -9, im: 22 });
    let mut c = a;
    c.add_assign(b);
    assert_eq!(c, Complex { re: 11, im: -18 });
    c.sub_assign(b);
    assert_eq!(c, a);
}

#[test]
fn negative_is_taken_by_components() {
    assert_eq!(-Complex { re: 3, im: -4 }, Complex { re: -3, im: 4 });
}

#[test]
fn product_follows_the_rule_for_complex_numbers() {
    let a = Complex { re: 1, im: 2 };
    let b = Complex { re: 3, im: 4 };
    assert_eq!(a * b, Complex { re: -5, im: 10 });
    assert_eq!(b * a, Complex { re: -5, im: 10 });
    let i = Complex { re: 0, im: 1 };
    assert_eq!(i * i, Complex { re: -1, im: 0 });
    assert_eq!(a * i, a.times_imaginary());
    let mut c = a;
    c.mul_assign(b);
    assert_eq!(c, Complex { re: -5, im: 10 });
}

#[test]
fn scaling_multiplies_both_components() {
    let a = Complex { re: 1.5, im: -2.0 };
    assert_eq!(a * 2.0, Complex { re: 3.0, im: -4.0 });
    let mut b = Complex { re: 3, im: 4 };
    b.scale_assign(-2);
    assert_eq!(b, Complex { re: -6, im: -8 });
}
