use numerical_grids::fixed::{Fixed, FX_BOUND, FX_HALF_PI, FX_PI, FX_SCALE};

fn to_f64(x: Fixed) -> f64 {
    x.raw() as f64 / FX_SCALE as f64
}

#[test]
fn test_from_ratio_truncates_toward_zero() {
    let r = Fixed::from_ratio(1, 3);
    assert!((to_f64(r) - 1.0 / 3.0).abs() < 1e-9);
    let neg = Fixed::from_ratio(-1, 3);
    assert_eq!(neg.raw(), -r.raw());
}

#[test]
fn test_saturating_addition() {
    let top = Fixed::from_raw(FX_BOUND);
    assert_eq!(top.add(top), top);
    assert_eq!(top.neg().sub(top), top.neg());
}

#[test]
fn test_multiplication_exact_on_integers() {
    let a = Fixed::from_int(12345);
    let b = Fixed::from_int(-678);
    assert_eq!(a.mul(b), Fixed::from_int(-8369910));
}

#[test]
fn test_division() {
    let a = Fixed::from_int(7);
    let b = Fixed::from_int(2);
    assert_eq!(a.div(b), Fixed::from_ratio(7, 2));
    assert!((to_f64(Fixed::one().div(Fixed::from_int(3))) - 1.0 / 3.0).abs() < 1e-9);
}

#[test]
fn test_sqrt_exact_squares() {
    assert_eq!(Fixed::from_int(4).sqrt(), Fixed::from_int(2));
    assert_eq!(Fixed::from_int(144).sqrt(), Fixed::from_int(12));
    assert_eq!(Fixed::zero().sqrt(), Fixed::zero());
}

#[test]
fn test_sqrt_two() {
    let r = Fixed::from_int(2).sqrt();
    assert!((to_f64(r) - std::f64::consts::SQRT_2).abs() < 1e-9);
}

#[test]
fn test_trigonometry() {
    let delta: f64 = 1e-8;
    assert_eq!(Fixed::zero().sin(), Fixed::zero());
    assert_eq!(Fixed::zero().cos(), Fixed::one());
    assert!((to_f64(Fixed::from_raw(FX_HALF_PI).sin()) - 1.0).abs() < delta);
    assert!((to_f64(Fixed::from_raw(FX_PI).cos()) + 1.0).abs() < delta);
    assert!((to_f64(Fixed::one().sin()) - 1.0f64.sin()).abs() < delta);
    assert!((to_f64(Fixed::from_int(-2).cos()) - 2.0f64.cos()).abs() < delta);
    // reduction by whole turns
    let big = Fixed::from_raw(FX_PI).mul(Fixed::from_int(9));
    assert!((to_f64(big.sin()) - (9.0 * std::f64::consts::PI).sin()).abs() < 1e-6);
}

#[test]
fn test_exponential() {
    assert_eq!(Fixed::zero().exp(), Fixed::one());
    assert!((to_f64(Fixed::one().exp()) - 1.0f64.exp()).abs() < 1e-6);
    assert!((to_f64(Fixed::from_int(-5).exp()) - (-5.0f64).exp()).abs() < 1e-6);
    assert!((to_f64(Fixed::from_int(12).exp()) - 12.0f64.exp()).abs() < 1.0);
}

#[test]
fn test_exponential_saturates_out_of_range() {
    // Above the representable range the exponential saturates; far below
    // it truncates to zero.
    assert_eq!(Fixed::from_int(22).exp(), Fixed::from_raw(FX_BOUND));
    assert_eq!(Fixed::from_int(-22).exp(), Fixed::zero());
}

#[test]
fn test_multiplication_saturates() {
    let big = Fixed::from_int(500000000);
    assert_eq!(big.mul(big), Fixed::from_raw(FX_BOUND));
    assert_eq!(big.neg().mul(big), Fixed::from_raw(FX_BOUND).neg());
}
