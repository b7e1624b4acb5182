use numerical_grids::duals::{diff, DualNumber};
use numerical_grids::fixed::{Fixed, FX_SCALE};

fn to_f64(x: Fixed) -> f64 {
    x.raw() as f64 / FX_SCALE as f64
}

#[test]
fn test_differentiation_powers() {
    let f1 = |x: DualNumber| -> DualNumber { x.pow(2) };
    let f2 = |x: DualNumber| -> DualNumber { x.pow(5).add(x.pow(2)) };
    assert_eq!(diff(&f1, Fixed::from_int(5)), Fixed::from_int(10));
    assert_eq!(diff(&f2, Fixed::from_int(2)), Fixed::from_int(84));
}

#[test]
fn test_pow_zero_is_constant_one() {
    // x^0 is the constant 1, whose derivative is 0 (the Taylor rule).
    let d = DualNumber::from(Fixed::from_int(7), Fixed::one());
    let r = d.pow(0);
    assert_eq!(r.get_a(), Fixed::one());
    assert_eq!(r.get_b(), Fixed::zero());
}

#[test]
fn test_dual_inv_exact() {
    // 1/w at w = 2 + 1eps: value 1/2, tangent -1/4, both exactly
    // representable.
    let d = DualNumber::from(Fixed::from_int(2), Fixed::one());
    let r = d.inv();
    assert_eq!(r.get_a(), Fixed::from_ratio(1, 2));
    assert_eq!(r.get_b(), Fixed::from_ratio(-1, 4));
}

#[test]
fn test_dual_div_quotient_rule() {
    // (x^2 / x) at x = 3 has derivative 1.
    let x = DualNumber::from(Fixed::from_int(3), Fixed::one());
    let r = x.mul(x).div(x);
    assert_eq!(r.get_a(), Fixed::from_int(3));
    assert!((to_f64(r.get_b()) - 1.0).abs() < 1e-8);
}

#[test]
fn test_diff_sin_at_zero() {
    // d/dx sin x at 0 is cos 0 = 1, exactly in the dual arithmetic.
    let f = |x: DualNumber| -> DualNumber { x.sin() };
    assert_eq!(diff(&f, Fixed::zero()), Fixed::one());
}

#[test]
fn test_diff_exp() {
    // d/dx exp x at 1 is e.
    let f = |x: DualNumber| -> DualNumber { x.exp() };
    let r = diff(&f, Fixed::one());
    assert!((to_f64(r) - 1.0f64.exp()).abs() < 1e-6);
}
