use geello::scalar;

fn samples() -> Vec<f64> {
    vec![
        0.0,
        -0.0,
        1.0,
        -1.0,
        0.1,
        -0.1,
        5e-324,
        -5e-324,
        f64::MAX,
        f64::MIN,
        f64::INFINITY,
        f64::NEG_INFINITY,
        f64::NAN,
        -f64::NAN,
        180.0,
        -90.0,
        6378137.0 * std::f64::consts::PI,
    ]
}

#[test]
fn comparisons_agree_with_doubles() {
    for a in samples() {
        for b in samples() {
            let (x, y) = (a.to_bits(), b.to_bits());
            assert_eq!(scalar::eq(x, y), a == b, "{a} == {b}");
            assert_eq!(scalar::lt(x, y), a < b, "{a} < {b}");
            assert_eq!(scalar::le(x, y), a <= b, "{a} <= {b}");
            assert_eq!(scalar::gt(x, y), a > b, "{a} > {b}");
            assert_eq!(scalar::ge(x, y), a >= b, "{a} >= {b}");
        }
    }
}

#[test]
fn nan_is_told_from_numbers() {
    for a in samples() {
        assert_eq!(scalar::nan(a.to_bits()), a.is_nan());
    }
}

#[test]
fn abs_bits_clears_the_sign() {
    assert_eq!(scalar::abs_bits((-1.5f64).to_bits()), 1.5f64.to_bits());
    assert_eq!(scalar::abs_bits(1.5f64.to_bits()), 1.5f64.to_bits());
    assert_eq!(scalar::abs_bits((-0.0f64).to_bits()), 0);
}

#[test]
fn zeros_of_both_signs_are_equal() {
    assert!(scalar::eq(0.0f64.to_bits(), (-0.0f64).to_bits()));
    assert!(!scalar::lt((-0.0f64).to_bits(), 0.0f64.to_bits()));
    assert!(scalar::le((-0.0f64).to_bits(), 0.0f64.to_bits()));
}

#[test]
fn min_and_max_yield_to_the_other_side_of_a_nan() {
    let nan = f64::NAN.to_bits();
    let two = 2.0f64.to_bits();
    assert_eq!(scalar::min(nan, two), two);
    assert_eq!(scalar::min(two, nan), two);
    assert_eq!(scalar::max(nan, two), two);
    assert_eq!(scalar::max(two, nan), two);
}

#[test]
fn min_and_max_agree_with_doubles_on_unequal_numbers() {
    for a in samples() {
        for b in samples() {
            if a.is_nan() || b.is_nan() || a == b {
                continue;
            }
            assert_eq!(scalar::min(a.to_bits(), b.to_bits()), a.min(b).to_bits());
            assert_eq!(scalar::max(a.to_bits(), b.to_bits()), a.max(b).to_bits());
        }
    }
}

#[test]
fn of_two_equal_numbers_the_first_is_taken() {
    let (plus, minus) = (0.0f64.to_bits(), (-0.0f64).to_bits());
    assert_eq!(scalar::min(plus, minus), plus);
    assert_eq!(scalar::max(minus, plus), minus);
}

#[test]
fn the_extremes_are_the_finite_extremes() {
    assert_eq!(scalar::GREATEST, f64::MAX.to_bits());
    assert_eq!(scalar::LEAST, f64::MIN.to_bits());
    assert_eq!(scalar::INFINITY_BITS, f64::INFINITY.to_bits());
}
