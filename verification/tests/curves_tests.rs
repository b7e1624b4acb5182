use numerical_grids::curve_impl::circle_arc::CircleArc;
use numerical_grids::curve_impl::straight_line::StraightLine;
use numerical_grids::duals::DualNumber;
use numerical_grids::errors::GridError;
use numerical_grids::fixed::{Fixed, FX_SCALE, FX_TWO_PI};
use numerical_grids::geometry::curves::Curves;
use numerical_grids::geometry::point::Point;

fn to_f64(x: Fixed) -> f64 {
    x.raw() as f64 / FX_SCALE as f64
}

#[test]
fn test_endpoint_unit() {
    let lines = [
        StraightLine::unit(0),
        StraightLine::unit(1),
        StraightLine::unit(2),
        StraightLine::unit(3),
    ];
    let line_endpoints: [i64; 16] = [0, 1, 0, 0, 1, 1, 0, 1, 1, 0, 1, 1, 0, 0, 1, 0];
    for (i, line) in lines.iter().enumerate() {
        assert_eq!(
            line.xs(DualNumber::from_real(line.get_smin())).get_a(),
            DualNumber::from_real(Fixed::from_int(line_endpoints[i * 4 + 0])).get_a()
        );
        assert_eq!(
            line.xs(DualNumber::from_real(line.get_smax())).get_a(),
            DualNumber::from_real(Fixed::from_int(line_endpoints[i * 4 + 1])).get_a()
        );
        assert_eq!(
            line.ys(DualNumber::from_real(line.get_smin())).get_a(),
            DualNumber::from_real(Fixed::from_int(line_endpoints[i * 4 + 2])).get_a()
        );
        assert_eq!(
            line.ys(DualNumber::from_real(line.get_smax())).get_a(),
            DualNumber::from_real(Fixed::from_int(line_endpoints[i * 4 + 3])).get_a()
        );
    }
}

#[test]
fn test_lengths_unit() {
    let x0 = Curves::Straight(StraightLine::unit(0));
    let x1 = Curves::Straight(StraightLine::unit(2));
    assert_eq!(x0.integrate(x0.get_smax()), Fixed::one());
    assert_eq!(x1.integrate(x1.get_smax()), Fixed::one());
}

#[test]
fn test_find_s() {
    let x0 = Curves::Straight(StraightLine::unit(0));
    assert!(0.3 - to_f64(x0.find_s(Fixed::from_ratio(3, 10))).abs() < 1e-6);
    assert!(0.5 - to_f64(x0.find_s(Fixed::from_ratio(5, 10))).abs() < 1e-6);
    assert!(0.8 - to_f64(x0.find_s(Fixed::from_ratio(8, 10))).abs() < 1e-6);
}

#[test]
fn test_circle_lengths() {
    let circle = Curves::Arc(CircleArc::unit());
    let half_circle_large = Curves::Arc(CircleArc::from(
        Fixed::from_int(10),
        Point::from(Fixed::from_int(3), Fixed::from_int(-3)),
        Fixed::zero(),
        Fixed::from_raw(FX_TWO_PI / 2),
    ));
    let delta: f64 = 1e-6;
    let pi = std::f64::consts::PI;
    assert!((to_f64(circle.integrate(circle.get_smax())) - 2.0 * pi).abs() < delta);
    assert!(
        to_f64(half_circle_large.integrate(half_circle_large.get_smax())) - 2.0 * pi * 10.0
            < delta
    );
}

#[test]
fn test_unit_quadrants() {
    let arcs = [
        CircleArc::unit_quadrant(0),
        CircleArc::unit_quadrant(1),
        CircleArc::unit_quadrant(2),
        CircleArc::unit_quadrant(3),
    ];

    assert!(arcs[0].u == Fixed::zero());
    assert!(arcs[0].v == Fixed::from_raw(FX_TWO_PI / 4));
    assert!(arcs[1].u == arcs[0].v);
    assert!(arcs[1].v == Fixed::from_raw(FX_TWO_PI / 2));
    assert!(arcs[2].u == arcs[1].v);
    assert!(arcs[2].v == Fixed::from_raw(3 * (FX_TWO_PI / 4)));
    assert!(arcs[3].u == arcs[2].v);
    assert!(arcs[3].v == Fixed::from_raw(FX_TWO_PI));

    assert_eq!(arcs[0].c.get_x(), Fixed::zero());
    assert_eq!(arcs[0].c.get_y(), Fixed::zero());

    let endpoints: [i64; 16] = [1, 0, 0, 1, 0, 1, -1, 0, -1, 0, 0, -1, 0, -1, 1, 0];
    let delta: f64 = 1e-6;
    for (i, arc) in arcs.iter().enumerate() {
        let xs0 = arc.xs(DualNumber::from_real(arc.get_smin())).get_a();
        let ys0 = arc.ys(DualNumber::from_real(arc.get_smin())).get_a();
        let xs1 = arc.xs(DualNumber::from_real(arc.get_smax())).get_a();
        let ys1 = arc.ys(DualNumber::from_real(arc.get_smax())).get_a();
        assert!((to_f64(xs0) - endpoints[i * 4 + 0] as f64).abs() < delta);
        assert!((to_f64(ys0) - endpoints[i * 4 + 1] as f64).abs() < delta);
        assert!((to_f64(xs1) - endpoints[i * 4 + 2] as f64).abs() < delta);
        assert!((to_f64(ys1) - endpoints[i * 4 + 3] as f64).abs() < delta);
    }
}

#[test]
fn test_uncenterd_circles() {
    let c1 = Curves::Arc(CircleArc::from(
        Fixed::from_int(2),
        Point::from(Fixed::from_int(1), Fixed::from_int(-1)),
        Fixed::zero(),
        Fixed::from_raw(FX_TWO_PI),
    ));

    assert!(c1.xy(Fixed::zero()).equal(&Point::from(Fixed::from_int(3), Fixed::from_int(-1))));
    assert!(
        c1.xy(Fixed::from_ratio(1, 2)).equal(&Point::from(Fixed::from_int(-1), Fixed::from_int(-1)))
    );
}

#[test]
fn test_unit_circle_circumference() {
    // The arc length of the full unit circle equals 2 pi within 1e-6.
    let circle = Curves::Arc(CircleArc::unit());
    let total = circle.integrate(circle.get_smax());
    assert!((to_f64(total) - 2.0 * std::f64::consts::PI).abs() < 1e-6);
}

#[test]
fn test_line_arc_length_fractions() {
    // On a straight unit-length line the arc-length fraction equals the
    // native fraction, so xy(t) lands at exactly those fractions.
    let line = Curves::Straight(StraightLine::unit(0));
    let fractions: [(i64, i64); 5] = [(0, 10), (3, 10), (5, 10), (8, 10), (10, 10)];
    for (num, den) in fractions.iter() {
        let t = Fixed::from_ratio(*num, *den);
        let p = line.xy(t);
        assert!((to_f64(p.get_x()) - *num as f64 / *den as f64).abs() < 1e-6);
        assert!(to_f64(p.get_y()).abs() < 1e-6);
    }
}

#[test]
fn test_curve_derivatives_through_duals() {
    // The speed of a line [a,b]*t + [c,d] is sqrt(a^2 + b^2); for a
    // 3-4-5 line that is exactly 5.
    let line = Curves::Straight(StraightLine::from(
        Fixed::from_int(3),
        Fixed::from_int(4),
        Fixed::zero(),
        Fixed::zero(),
        Fixed::zero(),
        Fixed::one(),
    ));
    assert_eq!(line.dxs(Fixed::from_ratio(1, 2)), Fixed::from_int(3));
    assert_eq!(line.dys(Fixed::from_ratio(1, 2)), Fixed::from_int(4));
    assert_eq!(line.integrand(Fixed::from_ratio(1, 2)), Fixed::from_int(5));
}

#[test]
fn test_integrate_report_convergence() {
    // On a smooth curve the quadrature converges: no diagnostic, and
    // the same estimate as `integrate`.
    let line = Curves::Straight(StraightLine::unit(0));
    let (length, diagnostic) = line.integrate_report(line.get_smax());
    assert_eq!(length, Fixed::one());
    assert!(diagnostic.is_none());
}

#[test]
fn test_find_s_reports_nonconvergence() {
    // A degenerate point-curve has zero speed everywhere, so the
    // arc-length inversion cannot step; the diagnostic is reported and
    // the best available estimate (the seed) still comes back.
    let point_curve = Curves::Straight(StraightLine::from(
        Fixed::zero(),
        Fixed::zero(),
        Fixed::zero(),
        Fixed::zero(),
        Fixed::zero(),
        Fixed::one(),
    ));
    let (estimate, diagnostic) = point_curve.find_s_report(Fixed::from_ratio(1, 2));
    assert_eq!(estimate, Fixed::zero());
    assert_eq!(diagnostic, Some(GridError::NonConvergence));
}
