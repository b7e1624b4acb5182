use std::rc::Rc;

use numerical_grids::curve_impl::special_curve::SpecialCurve;
use numerical_grids::curve_impl::straight_line::StraightLine;
use numerical_grids::errors::GridError;
use numerical_grids::fixed::{Fixed, FX_SCALE};
use numerical_grids::functions::{set_indices, GridFunction};
use numerical_grids::geometry::curves::Curves;
use numerical_grids::geometry::domain::Domain;

fn to_f64(x: Fixed) -> f64 {
    x.raw() as f64 / FX_SCALE as f64
}

fn unit_square_boundary() -> Vec<Curves> {
    vec![
        Curves::Straight(StraightLine::unit(0)),
        Curves::Straight(StraightLine::unit(1)),
        Curves::Straight(StraightLine::unit(2)),
        Curves::Straight(StraightLine::unit(3)),
    ]
}

#[test]
fn special_grid() {
    let special_now = std::time::Instant::now();

    let b1 = Curves::Special(SpecialCurve::new());
    let b2 = Curves::Straight(StraightLine::from(
        Fixed::zero(),
        Fixed::one(),
        Fixed::from_int(5),
        Fixed::zero(),
        Fixed::zero(),
        Fixed::from_int(3),
    ));
    let b3 = Curves::Straight(StraightLine::from(
        Fixed::one(),
        Fixed::zero(),
        Fixed::zero(),
        Fixed::from_int(3),
        Fixed::from_int(-10),
        Fixed::from_int(5),
    ));
    let b4 = Curves::Straight(StraightLine::from(
        Fixed::zero(),
        Fixed::one(),
        Fixed::from_int(-10),
        Fixed::zero(),
        Fixed::zero(),
        Fixed::from_int(3),
    ));

    let boundary = vec![b1, b2, b3, b4];
    let _ = Domain::new(boundary, 6, 9);

    let special_elapsed = special_now.elapsed();
    println!("Special grid calculations took {}ms", special_elapsed.as_millis());
}

#[test]
fn test_square_boundary_reproduction() {
    // Transfinite interpolation reproduces the sampled boundary points
    // exactly on all four edges of the square [0,1]x[0,1].
    let d = Domain::new(unit_square_boundary(), 5, 5).unwrap();
    let boundary = unit_square_boundary();
    let one = Fixed::one();
    for k in 0..5i64 {
        let t = Fixed::from_ratio(k, 4);
        // edge i = 0 carries curve 3, sampled in reverse
        assert_eq!(d.get_xy(0, k as usize), boundary[3].xy(one.sub(t)));
        // edge i = n-1 carries curve 1
        assert_eq!(d.get_xy(4, k as usize), boundary[1].xy(t));
        // edge j = 0 carries curve 0
        assert_eq!(d.get_xy(k as usize, 0), boundary[0].xy(t));
        // edge j = m-1 carries curve 2, sampled in reverse
        assert_eq!(d.get_xy(k as usize, 4), boundary[2].xy(one.sub(t)));
    }
}

#[test]
fn test_square_interior_points() {
    // The blended interior of the unit square is the uniform grid.
    let d = Domain::new(unit_square_boundary(), 5, 5).unwrap();
    assert_eq!(d.get_n(), 5);
    assert_eq!(d.get_m(), 5);
    for i in 0..5usize {
        for j in 0..5usize {
            let p = d.get_xy(i, j);
            assert!((to_f64(p.get_x()) - i as f64 / 4.0).abs() < 1e-6);
            assert!((to_f64(p.get_y()) - j as f64 / 4.0).abs() < 1e-6);
        }
    }
}

#[test]
fn test_geometry_inconsistency() {
    // Four segments that nowhere meet do not close into a loop.
    let far = Curves::Straight(StraightLine::from(
        Fixed::one(),
        Fixed::zero(),
        Fixed::from_int(100),
        Fixed::from_int(100),
        Fixed::zero(),
        Fixed::one(),
    ));
    let boundary = vec![
        Curves::Straight(StraightLine::unit(0)),
        far,
        Curves::Straight(StraightLine::unit(2)),
        far,
    ];
    let r = Domain::new(boundary, 5, 5);
    assert!(matches!(r, Err(GridError::GeometryInconsistency)));
}

#[test]
fn test_function_values_sampled() {
    // Values sampled from u(x, y) = x + 2y come back through the stored
    // matrix unchanged.
    let d = Rc::new(Domain::new(unit_square_boundary(), 5, 5).unwrap());
    let u = |x: Fixed, y: Fixed| -> Fixed { x.add(y.mul(Fixed::from_int(2))) };
    let g = GridFunction::from_fnc(&d, &u);
    for i in 0..5usize {
        for j in 0..5usize {
            let expect = to_f64(d.get_xy(i, j).get_x()) + 2.0 * to_f64(d.get_xy(i, j).get_y());
            assert!((to_f64(g.get_value(i, j)) - expect).abs() < 1e-9);
        }
    }
}

#[test]
fn test_generate_function_values() {
    let d = Rc::new(Domain::new(unit_square_boundary(), 5, 5).unwrap());
    let mut g = GridFunction::new(&d);
    assert_eq!(g.get_value(2, 2), Fixed::zero());
    let u = |x: Fixed, _y: Fixed| -> Fixed { x };
    g.generate_function_values(&u);
    assert_eq!(g.get_value(4, 1), d.get_xy(4, 1).get_x());
}

#[test]
fn test_laplace_of_harmonic_function() {
    // u(x, y) = x^2 - y^2 is harmonic, so the discrete Laplacian is zero
    // up to discretization and rounding error.
    let d = Rc::new(Domain::new(unit_square_boundary(), 5, 5).unwrap());
    let u = |x: Fixed, y: Fixed| -> Fixed { x.mul(x).sub(y.mul(y)) };
    let g = GridFunction::from_fnc(&d, &u);
    let lap = g.laplace().unwrap();
    for i in 0..5usize {
        for j in 0..5usize {
            assert!(to_f64(lap.get_value(i, j)).abs() < 1e-4);
        }
    }
}

#[test]
fn test_gradient_of_linear_function() {
    // u(x, y) = 3x + y has gradient (3, 1) at every node.
    let d = Rc::new(Domain::new(unit_square_boundary(), 5, 5).unwrap());
    let u = |x: Fixed, y: Fixed| -> Fixed { x.mul(Fixed::from_int(3)).add(y) };
    let g = GridFunction::from_fnc(&d, &u);
    let (gx, gy) = g.pd_xy().unwrap();
    for i in 0..5usize {
        for j in 0..5usize {
            assert!((to_f64(gx.get_value(i, j)) - 3.0).abs() < 1e-5);
            assert!((to_f64(gy.get_value(i, j)) - 1.0).abs() < 1e-5);
        }
    }
}

#[test]
fn test_domain_mismatch() {
    // Two separately constructed domains, even geometrically identical,
    // are different instances: combining functions on them is refused.
    let d1 = Rc::new(Domain::new(unit_square_boundary(), 5, 5).unwrap());
    let d2 = Rc::new(Domain::new(unit_square_boundary(), 5, 5).unwrap());
    let u = |x: Fixed, _y: Fixed| -> Fixed { x };
    let g1 = GridFunction::from_fnc(&d1, &u);
    let g2 = GridFunction::from_fnc(&d2, &u);
    assert!(matches!(g1.add(&g2), Err(GridError::DomainMismatch)));
    assert!(matches!(g1.mul(&g2), Err(GridError::DomainMismatch)));
}

#[test]
fn test_combine_on_shared_domain() {
    let d = Rc::new(Domain::new(unit_square_boundary(), 5, 5).unwrap());
    let u = |x: Fixed, _y: Fixed| -> Fixed { x };
    let g1 = GridFunction::from_fnc(&d, &u);
    let g2 = GridFunction::from_fnc(&d, &u);
    let s = g1.add(&g2).unwrap();
    let p = g1.mul(&g2).unwrap();
    for i in 0..5usize {
        for j in 0..5usize {
            let x = to_f64(d.get_xy(i, j).get_x());
            assert!((to_f64(s.get_value(i, j)) - 2.0 * x).abs() < 1e-8);
            assert!((to_f64(p.get_value(i, j)) - x * x).abs() < 1e-8);
        }
    }
}

#[test]
fn test_singular_jacobian() {
    // A fully degenerate boundary (four point-curves) collapses the grid
    // to one point, so the Jacobian vanishes everywhere and derivative
    // operators report it.
    let point_curve = Curves::Straight(StraightLine::from(
        Fixed::zero(),
        Fixed::zero(),
        Fixed::zero(),
        Fixed::zero(),
        Fixed::zero(),
        Fixed::one(),
    ));
    let boundary = vec![point_curve, point_curve, point_curve, point_curve];
    let d = Rc::new(Domain::new(boundary, 3, 3).unwrap());
    let g = GridFunction::new(&d);
    assert!(matches!(g.pdx(), Err(GridError::SingularJacobian)));
    assert!(matches!(g.laplace(), Err(GridError::SingularJacobian)));
}

#[test]
fn test_set_indices() {
    assert_eq!(set_indices(0, true), [1, 0, 2, 0]);
    assert_eq!(set_indices(1, true), [2, 0, 3, 1]);
    assert_eq!(set_indices(5, true), [6, 4, 7, 3]);
    assert_eq!(set_indices(5, false), [5, 5, 5, 5]);
}
