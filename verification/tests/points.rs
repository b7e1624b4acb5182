use numerical_grids::fixed::{Fixed, FX_SCALE};
use numerical_grids::geometry::point::Point;

fn to_f64(x: Fixed) -> f64 {
    x.raw() as f64 / FX_SCALE as f64
}

#[test]
fn test_new_point() {
    assert_eq!(Point::new().get_x(), Fixed::zero());
    assert_eq!(Point::new().get_y(), Fixed::zero());
}

#[test]
fn test_from_point() {
    let point = Point::from(Fixed::one(), Fixed::one());
    assert_eq!(point.get_x(), Fixed::one());
    assert_eq!(point.get_y(), Fixed::one());
}

#[test]
fn test_get_funcs() {
    let point = Point::from(Fixed::one(), Fixed::zero());
    assert_eq!(point.get_x(), Fixed::one());
    assert_eq!(point.get_y(), Fixed::zero());
}

#[test]
fn test_point_arithmetic() {
    let p = Point::from(Fixed::from_int(1), Fixed::from_int(2));
    let q = Point::from(Fixed::from_int(3), Fixed::from_int(5));
    let s = p.add(q);
    assert_eq!(s.get_x(), Fixed::from_int(4));
    assert_eq!(s.get_y(), Fixed::from_int(7));
    let d = q.sub(p);
    assert_eq!(d.get_x(), Fixed::from_int(2));
    assert_eq!(d.get_y(), Fixed::from_int(3));
    let n = p.neg();
    assert_eq!(n.get_x(), Fixed::from_int(-1));
    let m = p.mul(Fixed::from_int(3));
    assert_eq!(m.get_y(), Fixed::from_int(6));
}

#[test]
fn test_point_approximate_equality() {
    let p = Point::from(Fixed::one(), Fixed::one());
    let nudged = Point::from(Fixed::one().add(Fixed::from_raw(42)), Fixed::one());
    let far = Point::from(Fixed::one().add(Fixed::from_ratio(1, 100)), Fixed::one());
    assert!(p.equal(&nudged));
    assert!(!p.equal(&far));
    assert!((to_f64(far.get_x()) - 1.01).abs() < 1e-6);
}
