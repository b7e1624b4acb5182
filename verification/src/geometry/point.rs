//! Points of the physical plane, with the componentwise operations the
//! grid generator blends boundary samples with, and the approximate
//! equality the consistency check matches curve endpoints with.

use vstd::prelude::*;
use crate::fixed::{Fixed, fx_add, fx_sub, fx_mul, fx_neg, fx_abs};

verus! {

/// Tolerance of the default approximate point equality, in raw units
/// (about 1e-5).
pub const POINT_EPS: i64 = 42950;

/// A coordinate axis, or both.
pub enum Dimension {
    DimX,
    DimY,
    DimXY,
}

/// Componentwise approximate equality within `eps` raw units.
pub open spec fn point_eq_eps(p: (int, int), q: (int, int), eps: int) -> bool {
    fx_abs(fx_sub(p.0, q.0)) < eps && fx_abs(fx_sub(p.1, q.1)) < eps
}

/// Spec mirror of componentwise point addition.
pub open spec fn point_add(p: (int, int), q: (int, int)) -> (int, int) {
    (fx_add(p.0, q.0), fx_add(p.1, q.1))
}

/// Spec mirror of componentwise point subtraction.
pub open spec fn point_sub(p: (int, int), q: (int, int)) -> (int, int) {
    (fx_sub(p.0, q.0), fx_sub(p.1, q.1))
}

/// Spec mirror of componentwise point negation.
pub open spec fn point_neg(p: (int, int)) -> (int, int) {
    (fx_neg(p.0), fx_neg(p.1))
}

/// Spec mirror of scaling a point.
pub open spec fn point_mul(p: (int, int), k: int) -> (int, int) {
    (fx_mul(p.0, k), fx_mul(p.1, k))
}

/// A point (x, y) in physical space.
#[derive(Clone, Copy, Debug, PartialEq, Eq, Structural)]
pub struct Point {
    x: Fixed,
    y: Fixed,
}

impl View for Point {
    type V = (int, int);

    closed spec fn view(&self) -> (int, int) {
        (self.x@, self.y@)
    }
}

impl Point {
    /// The origin.
    pub fn new() -> (r: Point)
        ensures
            r@ == (0int, 0int),
    {
        Point { x: Fixed::zero(), y: Fixed::zero() }
    }

    /// The point with the given coordinates.
    pub fn from(x: Fixed, y: Fixed) -> (r: Point)
        ensures
            r@ == (x@, y@),
    {
        Point { x, y }
    }

    /// The x coordinate.
    pub fn get_x(&self) -> (r: Fixed)
        ensures
            r@ == self@.0,
    {
        self.x
    }

    /// The y coordinate.
    pub fn get_y(&self) -> (r: Fixed)
        ensures
            r@ == self@.1,
    {
        self.y
    }

    /// Componentwise sum.
    pub fn add(self, other: Point) -> (r: Point)
        ensures
            r@ == point_add(self@, other@),
    {
        Point { x: self.x.add(other.x), y: self.y.add(other.y) }
    }

    /// Componentwise difference.
    pub fn sub(self, other: Point) -> (r: Point)
        ensures
            r@ == point_sub(self@, other@),
    {
        Point { x: self.x.sub(other.x), y: self.y.sub(other.y) }
    }

    /// Componentwise negation.
    pub fn neg(self) -> (r: Point)
        ensures
            r@ == point_neg(self@),
    {
        Point { x: self.x.neg(), y: self.y.neg() }
    }

    /// Scaling by a scalar.
    pub fn mul(self, other: Fixed) -> (r: Point)
        ensures
            r@ == point_mul(self@, other@),
    {
        Point { x: self.x.mul(other), y: self.y.mul(other) }
    }

    /// Are the two points approximately equal (default tolerance)?
    pub fn equal(&self, other: &Point) -> (r: bool)
        ensures
            r == point_eq_eps(self@, other@, POINT_EPS as int),
    {
        self.approx_equal_weps(other, POINT_EPS)
    }

    /// Are the two points approximately equal within `eps` raw units?
    pub fn approx_equal_weps(&self, other: &Point, eps: i64) -> (r: bool)
        ensures
            r == point_eq_eps(self@, other@, eps as int),
    {
        let x_diff = self.x.sub(other.x).abs();
        let y_diff = self.y.sub(other.y).abs();
        x_diff.raw() < eps && y_diff.raw() < eps
    }
}

} // verus!
