//! Circle arcs with a radius, a center, and start and end angles (in
//! radians).

use vstd::prelude::*;
use crate::fixed::{Fixed, fx_mul, FX_SCALE, FX_HALF_PI, FX_TWO_PI};
use crate::duals::{DualNumber, spec_dual_sin, spec_dual_cos, spec_dual_mul_s, spec_dual_add_s};
use crate::geometry::point::Point;
use vstd::arithmetic::div_mod::lemma_div_multiples_vanish;

verus! {

/// A circle arc of radius `r` around `c`, from angle `u` to angle `v`.
#[derive(Clone, Copy, Debug, PartialEq, Eq, Structural)]
pub struct CircleArc {
    pub r: Fixed,
    pub c: Point,
    pub u: Fixed,
    pub v: Fixed,
}

/// Dual-valued x position of an arc at dual angle `s`: `r cos s + c_x`.
pub open spec fn arc_xs(a: CircleArc, s: (int, int)) -> (int, int) {
    spec_dual_add_s(spec_dual_mul_s(spec_dual_cos(s), a.r@), a.c@.0)
}

/// Dual-valued y position of an arc at dual angle `s`: `r sin s + c_y`.
pub open spec fn arc_ys(a: CircleArc, s: (int, int)) -> (int, int) {
    spec_dual_add_s(spec_dual_mul_s(spec_dual_sin(s), a.r@), a.c@.1)
}

impl CircleArc {
    /// Circle arc with radius `r`, center `c` and start-end angles `u`
    /// and `v`.
    pub fn from(r: Fixed, c: Point, u: Fixed, v: Fixed) -> (res: CircleArc)
        ensures
            res == (CircleArc { r, c, u, v }),
    {
        CircleArc { r, c, u, v }
    }

    /// The unit circle.
    pub fn unit() -> (res: CircleArc)
        ensures
            res.r@ == FX_SCALE,
            res.c@ == (0int, 0int),
            res.u@ == 0,
            res.v@ == FX_TWO_PI,
    {
        CircleArc {
            r: Fixed::one(),
            c: Point::new(),
            u: Fixed::zero(),
            v: Fixed::from_raw(FX_TWO_PI),
        }
    }

    /// The circle of radius `r` centered on the origin.
    pub fn scaled_unit(r: Fixed) -> (res: CircleArc)
        ensures
            res.r == r,
            res.c@ == (0int, 0int),
            res.u@ == 0,
            res.v@ == FX_TWO_PI,
    {
        CircleArc::from(r, Point::new(), Fixed::zero(), Fixed::from_raw(FX_TWO_PI))
    }

    /// A quadrant of the unit circle, 0 being the first quadrant.
    pub fn unit_quadrant(quadrant: u8) -> (res: CircleArc)
        requires
            quadrant <= 3,
        ensures
            res.r@ == FX_SCALE,
            res.c@ == (0int, 0int),
            res.u@ == quadrant * FX_HALF_PI,
            res.v@ == (quadrant + 1) * FX_HALF_PI,
    {
        let r = Fixed::one();
        let c = Point::new();
        let half_pi = Fixed::from_raw(FX_HALF_PI);
        let u = Fixed::from_int(quadrant as i64).mul(half_pi);
        let v = Fixed::from_int((quadrant + 1) as i64).mul(half_pi);
        proof {
            lemma_quadrant_angle(quadrant as int);
            lemma_quadrant_angle(quadrant + 1);
        }
        CircleArc::from(r, c, u, v)
    }

    /// The center point of the arc.
    pub fn center(&self) -> (res: Point)
        ensures
            res == self.c,
    {
        self.c
    }

    /// Start of the native parametrization (the start angle).
    pub fn get_smin(&self) -> (res: Fixed)
        ensures
            res == self.u,
    {
        self.u
    }

    /// End of the native parametrization (the end angle).
    pub fn get_smax(&self) -> (res: Fixed)
        ensures
            res == self.v,
    {
        self.v
    }

    /// x-value of the arc at dual angle `s`.
    pub fn xs(&self, s: DualNumber) -> (res: DualNumber)
        ensures
            res@ == arc_xs(*self, s@),
    {
        s.cos().mul_s(self.r).add_s(self.c.get_x())
    }

    /// y-value of the arc at dual angle `s`.
    pub fn ys(&self, s: DualNumber) -> (res: DualNumber)
        ensures
            res@ == arc_ys(*self, s@),
    {
        s.sin().mul_s(self.r).add_s(self.c.get_y())
    }
}

/// Scaling a small whole number of half turns is exact:
/// `fx_mul(q * FX_SCALE, FX_HALF_PI) == q * FX_HALF_PI`.
proof fn lemma_quadrant_angle(q: int)
    requires
        0 <= q <= 4,
    ensures
        fx_mul(q * FX_SCALE, FX_HALF_PI as int) == q * FX_HALF_PI,
{
    assert((q * FX_SCALE) * FX_HALF_PI == FX_SCALE as int * (q * FX_HALF_PI))
        by (nonlinear_arith);
    lemma_div_multiples_vanish(q * FX_HALF_PI, FX_SCALE as int);
}

} // verus!
