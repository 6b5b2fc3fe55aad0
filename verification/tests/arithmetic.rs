//! Exact-value tests for the fixed-point scalar and the sigmoid.

use backprop::fixed::Fx;
use backprop::fixed::MAX_RAW;
use backprop::fixed::MIN_RAW;
use backprop::fixed::ONE_RAW;
use backprop::sigmoid::sigmoid;

fn fx(v: f64) -> Fx {
    Fx::from_raw((v * 4294967296.0).round() as i64)
}

fn val(x: Fx) -> f64 {
    x.raw() as f64 / 4294967296.0
}

#[test]
fn add_is_exact_on_dyadic_values() {
    let a = Fx::from_raw(6442450944); // 1.5
    let b = Fx::from_raw(9663676416); // 2.25
    assert_eq!(a.add(b).raw(), 16106127360); // 3.75
}

#[test]
fn add_saturates_at_the_bounds() {
    let top = Fx::from_raw(MAX_RAW);
    let one = Fx::from_raw(ONE_RAW);
    assert_eq!(top.add(one).raw(), MAX_RAW);
    let bottom = Fx::from_raw(MIN_RAW);
    assert_eq!(bottom.sub(one).raw(), MIN_RAW);
}

#[test]
fn sub_is_exact_on_dyadic_values() {
    let a = Fx::from_raw(ONE_RAW); // 1.0
    let b = Fx::from_raw(1073741824); // 0.25
    assert_eq!(a.sub(b).raw(), 3221225472); // 0.75
}

#[test]
fn mul_is_exact_on_dyadic_values() {
    let a = Fx::from_raw(6442450944); // 1.5
    let b = Fx::from_raw(10737418240); // 2.5
    assert_eq!(a.mul(b).raw(), 16106127360); // 3.75
}

#[test]
fn mul_truncates_toward_zero() {
    let half = Fx::from_raw(2147483648); // 0.5
    let tiny = Fx::from_raw(7); // 7 * 2^-32
    assert_eq!(tiny.mul(half).raw(), 3); // 3.5 truncates to 3
    let neg_tiny = Fx::from_raw(-7);
    assert_eq!(neg_tiny.mul(half).raw(), -3); // toward zero, not -4
}

#[test]
fn mul_saturates_at_the_bounds() {
    let big = Fx::from_raw(MAX_RAW);
    assert_eq!(big.mul(big).raw(), MAX_RAW);
    let neg_big = Fx::from_raw(MIN_RAW);
    assert_eq!(neg_big.mul(big).raw(), MIN_RAW);
}

#[test]
fn sigmoid_of_zero_is_exactly_one_half() {
    assert_eq!(sigmoid(Fx::from_raw(0)).raw(), 2147483648);
}

#[test]
fn sigmoid_mirrors_around_zero() {
    let z = fx(1.2345);
    let pos = sigmoid(z);
    let neg = sigmoid(Fx::from_raw(-z.raw()));
    assert_eq!(pos.raw() + neg.raw(), ONE_RAW);
}

#[test]
fn sigmoid_matches_the_logistic_function() {
    let cases = [0.25f64, 0.5, 1.0, 2.0, 5.0, 10.0, -0.75, -3.0];
    for &z in cases.iter() {
        let expected = 1.0 / (1.0 + (-z).exp());
        let got = val(sigmoid(fx(z)));
        assert!(
            (got - expected).abs() < 1e-6,
            "sigmoid({}) = {} but expected {}",
            z,
            got,
            expected
        );
    }
}

#[test]
fn sigmoid_saturates_cleanly() {
    assert_eq!(sigmoid(fx(100.0)).raw(), ONE_RAW);
    assert_eq!(sigmoid(fx(-100.0)).raw(), 0);
    for raw in [MAX_RAW, MIN_RAW, i64::MIN, 1, -1] {
        let s = sigmoid(Fx::from_raw(raw)).raw();
        assert!(0 <= s && s <= ONE_RAW);
    }
}
