//! Straight lines defined by [a,b]*t + [c,d] with t ranging from `s_min`
//! to `s_max`.

use vstd::prelude::*;
use crate::fixed::{Fixed, fx_add, fx_mul, fx_neg, fx_tdiv, FX_SCALE};
use crate::duals::DualNumber;

verus! {

/// A straight line segment: position `(a*t + c, b*t + d)`.
#[derive(Clone, Copy, Debug, PartialEq, Eq, Structural)]
pub struct StraightLine {
    pub a: Fixed,
    pub b: Fixed,
    pub c: Fixed,
    pub d: Fixed,
    pub s_min: Fixed,
    pub s_max: Fixed,
}

/// Dual-valued x position of a line at dual parameter `s`.
pub open spec fn straight_xs(l: StraightLine, s: (int, int)) -> (int, int) {
    (fx_add(fx_mul(s.0, l.a@), l.c@), fx_mul(s.1, l.a@))
}

/// Dual-valued y position of a line at dual parameter `s`.
pub open spec fn straight_ys(l: StraightLine, s: (int, int)) -> (int, int) {
    (fx_add(fx_mul(s.0, l.b@), l.d@), fx_mul(s.1, l.b@))
}

impl StraightLine {
    /// Line defined by the parameters, with its native parametrization
    /// running from `s_min` to `s_max`.
    pub fn from(a: Fixed, b: Fixed, c: Fixed, d: Fixed, s_min: Fixed, s_max: Fixed) -> (r:
        StraightLine)
        ensures
            r == (StraightLine { a, b, c, d, s_min, s_max }),
    {
        StraightLine { a, b, c, d, s_min, s_max }
    }

    /// Side `side` of the unit square, with 0 being y=0, 1 being x=1 and
    /// so on, parametrized from 0 to 1.
    pub fn unit(side: u8) -> (r: StraightLine)
        requires
            side <= 3,
        ensures
            r.s_min@ == 0 && r.s_max@ == FX_SCALE,
            side == 0 ==> r.a@ == FX_SCALE && r.b@ == 0 && r.c@ == 0 && r.d@ == 0,
            side == 1 ==> r.a@ == 0 && r.b@ == FX_SCALE && r.c@ == FX_SCALE && r.d@ == 0,
            side == 2 ==> r.a@ == -FX_SCALE && r.b@ == 0 && r.c@ == FX_SCALE && r.d@
                == FX_SCALE,
            side == 3 ==> r.a@ == 0 && r.b@ == -FX_SCALE && r.c@ == 0 && r.d@ == FX_SCALE,
    {
        let zero = Fixed::zero();
        let one = Fixed::one();
        let neg_one = one.neg();
        let mut a = zero;
        let mut b = zero;
        let mut c = zero;
        let mut d = zero;
        if side == 0 {
            a = one;
        } else if side == 1 {
            b = one;
            c = one;
        } else if side == 2 {
            a = neg_one;
            c = one;
            d = one;
        } else {
            b = neg_one;
            d = one;
        }
        StraightLine { a, b, c, d, s_min: zero, s_max: one }
    }

    /// Side `side` of an axis-aligned square of the given side length
    /// centered on the origin, parametrized from 0 to 1.
    pub fn zero_centered(side: u8, length: Fixed) -> (r: StraightLine)
        requires
            side <= 3,
        ensures
            r.s_min@ == 0 && r.s_max@ == FX_SCALE,
            side == 0 ==> r.a@ == length@ && r.b@ == 0 && r.c@ == -fx_tdiv(length@, 2) && r.d@
                == -fx_tdiv(length@, 2),
            side == 1 ==> r.a@ == 0 && r.b@ == length@ && r.c@ == fx_tdiv(length@, 2) && r.d@
                == -fx_tdiv(length@, 2),
            side == 2 ==> r.a@ == -length@ && r.b@ == 0 && r.c@ == fx_tdiv(length@, 2) && r.d@
                == fx_tdiv(length@, 2),
            side == 3 ==> r.a@ == 0 && r.b@ == -length@ && r.c@ == -fx_tdiv(length@, 2) && r.d@
                == fx_tdiv(length@, 2),
    {
        let zero = Fixed::zero();
        let half = length.div_int(2);
        let neg_half = half.neg();
        let a: Fixed;
        let b: Fixed;
        let c: Fixed;
        let d: Fixed;
        if side == 0 {
            a = length;
            b = zero;
            c = neg_half;
            d = neg_half;
        } else if side == 1 {
            a = zero;
            b = length;
            c = half;
            d = neg_half;
        } else if side == 2 {
            a = length.neg();
            b = zero;
            c = half;
            d = half;
        } else {
            a = zero;
            b = length.neg();
            c = neg_half;
            d = half;
        }
        StraightLine::from(a, b, c, d, zero, Fixed::one())
    }

    /// Start of the native parametrization.
    pub fn get_smin(&self) -> (r: Fixed)
        ensures
            r == self.s_min,
    {
        self.s_min
    }

    /// End of the native parametrization.
    pub fn get_smax(&self) -> (r: Fixed)
        ensures
            r == self.s_max,
    {
        self.s_max
    }

    /// x-value of the line at dual parameter `t`.
    pub fn xs(&self, t: DualNumber) -> (r: DualNumber)
        ensures
            r@ == straight_xs(*self, t@),
    {
        t.mul_s(self.a).add_s(self.c)
    }

    /// y-value of the line at dual parameter `t`.
    pub fn ys(&self, t: DualNumber) -> (r: DualNumber)
        ensures
            r@ == straight_ys(*self, t@),
    {
        t.mul_s(self.b).add_s(self.d)
    }
}

} // verus!
