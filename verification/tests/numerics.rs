use numerical_grids::fixed::{Fixed, FX_SCALE};
use numerical_grids::numerical_methods::asymptotic_simpsons::asi;
use numerical_grids::numerical_methods::newton::newton;

fn to_f64(x: Fixed) -> f64 {
    x.raw() as f64 / FX_SCALE as f64
}

#[test]
fn test_asi_polynomials() {
    let x = |t: Fixed| -> Fixed { t };
    let x2 = |t: Fixed| -> Fixed { t.mul(t) };
    let delta: f64 = 1e-8;
    let r1 = asi(&x, Fixed::zero(), Fixed::one());
    assert!((to_f64(r1.0) - 0.5).abs() < delta);
    let r2 = asi(&x2, Fixed::from_int(-1), Fixed::one());
    assert!((to_f64(r2.0) - 2.0 / 3.0).abs() < delta);
}

#[test]
fn test_newton() {
    let delta: f64 = 1e-8;
    let dottie: f64 = 0.73908514;
    let f1 = |x: Fixed| -> Fixed { x.sub(x.cos()) };
    let df1 = |x: Fixed| -> Fixed { Fixed::one().add(x.sin()) };
    let f2 = |x: Fixed| -> Fixed { x.mul(x).sub(Fixed::from_int(16)) };
    let df2 = |x: Fixed| -> Fixed { Fixed::from_int(2).mul(x) };
    let r1 = newton(&f1, &df1, Fixed::from_ratio(1, 2));
    assert!((to_f64(r1.0) - dottie).abs() < delta);
    let r2 = newton(&f2, &df2, Fixed::one());
    assert!((to_f64(r2.0) - 4.0).abs() < delta);
}

#[test]
fn test_newton_reports_nonconvergence() {
    // A function with no root and constant unit derivative walks away
    // forever; the iteration budget runs out and the flag says so, while
    // the last estimate is still returned.
    let f = |_x: Fixed| -> Fixed { Fixed::one() };
    let df = |_x: Fixed| -> Fixed { Fixed::one() };
    let r = newton(&f, &df, Fixed::zero());
    assert!(!r.1);
}

#[test]
fn test_newton_vanishing_derivative_is_reported() {
    // A zero derivative cannot be stepped through; the seed comes back
    // with the non-convergence flag instead of a crash.
    let f = |_x: Fixed| -> Fixed { Fixed::one() };
    let df = |_x: Fixed| -> Fixed { Fixed::zero() };
    let r = newton(&f, &df, Fixed::from_int(7));
    assert_eq!(r.0, Fixed::from_int(7));
    assert!(!r.1);
}

#[test]
fn test_asi_converges_on_smooth_integrand() {
    let x = |t: Fixed| -> Fixed { t };
    let r = asi(&x, Fixed::zero(), Fixed::one());
    assert!(r.1);
}
