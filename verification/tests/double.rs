use analytic_beam::double::{Double, BINADE, FRAC_PI_2, INFINITE, SIGN};
use analytic_beam::stations::FLATNESS;

fn d(x: f64) -> Double {
    Double { bits: x.to_bits() }
}

fn samples() -> Vec<f64> {
    vec![
        0.0,
        -0.0,
        1.0,
        -1.0,
        0.278,
        -0.278,
        1.5,
        2.0,
        f64::MIN_POSITIVE,
        -f64::MIN_POSITIVE,
        f64::from_bits(1),
        -f64::from_bits(1),
        f64::from_bits(BINADE - 1),
        f64::MAX,
        f64::MIN,
        f64::INFINITY,
        f64::NEG_INFINITY,
        f64::NAN,
        -f64::NAN,
        std::f64::consts::FRAC_PI_2,
        1e-10,
        -1e-10,
    ]
}

#[test]
fn constants_are_the_numbers_they_name() {
    assert_eq!(FRAC_PI_2, std::f64::consts::FRAC_PI_2.to_bits());
    assert_eq!(FLATNESS, 1e-10f64.to_bits());
    assert_eq!(INFINITE, f64::INFINITY.to_bits());
    assert_eq!(SIGN, (-0.0f64).to_bits());
    assert_eq!(BINADE, f64::MIN_POSITIVE.to_bits());
}

#[test]
fn order_is_that_of_the_numbers() {
    for a in samples() {
        for b in samples() {
            assert_eq!(d(a).gt(d(b)), a > b, "{} > {}", a, b);
        }
    }
}

#[test]
fn minimum_is_that_of_the_numbers() {
    for a in samples() {
        for b in samples() {
            let ours = f64::from_bits(d(a).min(d(b)).bits);
            let theirs = a.min(b);
            assert!(ours == theirs || (ours.is_nan() && theirs.is_nan()), "{} {}", a, b);
        }
    }
    assert_eq!(d(f64::NAN).min(d(3.0)), d(3.0));
    assert_eq!(d(3.0).min(d(f64::NAN)), d(3.0));
    assert_eq!(d(3.0).min(d(-4.0)), d(-4.0));
}

#[test]
fn within_is_that_of_the_absolute_value() {
    for a in samples() {
        for b in samples() {
            assert_eq!(d(a).within(d(b)), a.abs() < b, "|{}| < {}", a, b);
        }
    }
}

#[test]
fn magnitude_drops_the_sign() {
    assert_eq!(d(-2.5).get_magnitude(), 2.5f64.to_bits());
    assert_eq!(d(2.5).get_magnitude(), 2.5f64.to_bits());
}
