//! The curve abstraction: a closed set of curve variants, each supplying
//! a native parametrization domain and dual-valued position functions.
//! From those this module derives, uniformly for every variant, the
//! arc-length speed, the arc length by adaptive quadrature, the inversion
//! of the arc-length map by Newton's method, and uniform sampling `xy(t)`
//! at arc-length fractions.

use vstd::prelude::*;
use crate::fixed::{
    Fixed, fx_add, fx_sub, fx_mul, fx_sqrt, FX_SCALE, lemma_fx_square_nonneg,
};
use crate::duals::DualNumber;
use crate::errors::GridError;
use crate::geometry::point::Point;
use crate::curve_impl::straight_line::{StraightLine, straight_xs, straight_ys};
use crate::curve_impl::circle_arc::{CircleArc, arc_xs, arc_ys};
use crate::curve_impl::special_curve::{SpecialCurve, special_ys};
use crate::numerical_methods::implements;
use crate::numerical_methods::asymptotic_simpsons::{asi, spec_asi};
use crate::numerical_methods::newton::{newton, spec_newton};

verus! {

/// A boundary curve: one of the closed set of variants.
#[derive(Clone, Copy, Debug, PartialEq, Eq, Structural)]
pub enum Curves {
    Straight(StraightLine),
    Arc(CircleArc),
    Special(SpecialCurve),
}

/// Start of the native parametrization of a curve.
pub open spec fn curve_smin(c: Curves) -> int {
    match c {
        Curves::Straight(l) => l.s_min@,
        Curves::Arc(a) => a.u@,
        Curves::Special(_) => -10 * FX_SCALE,
    }
}

/// End of the native parametrization of a curve.
pub open spec fn curve_smax(c: Curves) -> int {
    match c {
        Curves::Straight(l) => l.s_max@,
        Curves::Arc(a) => a.v@,
        Curves::Special(_) => 5 * FX_SCALE,
    }
}

/// Dual-valued x position of a curve at dual parameter `s`.
pub open spec fn curve_xs(c: Curves, s: (int, int)) -> (int, int) {
    match c {
        Curves::Straight(l) => straight_xs(l, s),
        Curves::Arc(a) => arc_xs(a, s),
        Curves::Special(_) => s,
    }
}

/// Dual-valued y position of a curve at dual parameter `s`.
pub open spec fn curve_ys(c: Curves, s: (int, int)) -> (int, int) {
    match c {
        Curves::Straight(l) => straight_ys(l, s),
        Curves::Arc(a) => arc_ys(a, s),
        Curves::Special(_) => special_ys(s),
    }
}

/// x-derivative of a curve at `s`: the tangent component of the position
/// evaluated at the dual number `(s, 1)`.
pub open spec fn curve_dxs(c: Curves, s: int) -> int {
    curve_xs(c, (s, FX_SCALE as int)).1
}

/// y-derivative of a curve at `s`.
pub open spec fn curve_dys(c: Curves, s: int) -> int {
    curve_ys(c, (s, FX_SCALE as int)).1
}

/// Arc-length speed of a curve at `s`: sqrt(dxs^2 + dys^2).
#[verifier::opaque]
pub open spec fn curve_integrand(c: Curves, s: int) -> int {
    fx_sqrt(
        fx_add(
            fx_mul(curve_dxs(c, s), curve_dxs(c, s)),
            fx_mul(curve_dys(c, s), curve_dys(c, s)),
        ),
    )
}

/// The arc-length speed as a spec-level function of the parameter.
pub open spec fn curve_integrand_fn(c: Curves) -> spec_fn(int) -> int {
    |p: int| curve_integrand(c, p)
}

/// Arc length of the curve from its native start to `s`, by adaptive
/// Simpson quadrature of the speed.
#[verifier::opaque]
pub open spec fn curve_integrate(c: Curves, s: int) -> int {
    spec_asi(curve_integrand_fn(c), curve_smin(c), s).0
}

/// Total arc length of the curve.
pub open spec fn curve_total(c: Curves) -> int {
    curve_integrate(c, curve_smax(c))
}

/// The function whose root inverts the arc-length map at fraction `t`:
/// `p -> integrate(p) - t * total`.
pub open spec fn curve_find_f(c: Curves, t: int) -> spec_fn(int) -> int {
    |p: int| fx_sub(curve_integrate(c, p), fx_mul(t, curve_total(c)))
}

/// Did the quadrature of the arc length up to `s` converge within its
/// refinement budget?
#[verifier::opaque]
pub open spec fn curve_integrate_converged(c: Curves, s: int) -> bool {
    spec_asi(curve_integrand_fn(c), curve_smin(c), s).1
}

/// The native parameter at arc-length fraction `t`: the Newton iteration
/// on `integrate(p) - t * total`, seeded at 0.
#[verifier::opaque]
pub open spec fn curve_find_s(c: Curves, t: int) -> int {
    spec_newton(curve_find_f(c, t), curve_integrand_fn(c), 0).0
}

/// Did the arc-length inversion at fraction `t` converge within its
/// iteration budget?
#[verifier::opaque]
pub open spec fn curve_find_s_converged(c: Curves, t: int) -> bool {
    spec_newton(curve_find_f(c, t), curve_integrand_fn(c), 0).1
}

/// The physical point of the curve at arc-length fraction `t`.
#[verifier::opaque]
pub open spec fn curve_xy(c: Curves, t: int) -> (int, int) {
    let s = curve_find_s(c, t);
    (curve_xs(c, (s, 0)).0, curve_ys(c, (s, 0)).0)
}


/// A straight line has the same arc-length speed at every native
/// parameter: its speed is sqrt(a^2 + b^2) wherever it is sampled, so
/// equal parameter increments cover equal physical distance and the
/// arc-length fraction coincides with the native fraction.
pub proof fn lemma_line_constant_speed(l: StraightLine, s1: int, s2: int)
    ensures
        curve_integrand(Curves::Straight(l), s1) == curve_integrand(Curves::Straight(l), s2),
{
    reveal(curve_integrand);
}

impl Curves {
    /// Start of the native parametrization.
    pub fn get_smin(&self) -> (r: Fixed)
        ensures
            r@ == curve_smin(*self),
    {
        match self {
            Curves::Straight(l) => l.get_smin(),
            Curves::Arc(a) => a.get_smin(),
            Curves::Special(sc) => sc.get_smin(),
        }
    }

    /// End of the native parametrization.
    pub fn get_smax(&self) -> (r: Fixed)
        ensures
            r@ == curve_smax(*self),
    {
        match self {
            Curves::Straight(l) => l.get_smax(),
            Curves::Arc(a) => a.get_smax(),
            Curves::Special(sc) => sc.get_smax(),
        }
    }

    /// Curve parametrization for x; takes a dual number so that the
    /// derivative is obtained by the same evaluation.
    pub fn xs(&self, s: DualNumber) -> (r: DualNumber)
        ensures
            r@ == curve_xs(*self, s@),
    {
        match self {
            Curves::Straight(l) => l.xs(s),
            Curves::Arc(a) => a.xs(s),
            Curves::Special(sc) => sc.xs(s),
        }
    }

    /// Curve parametrization for y.
    pub fn ys(&self, s: DualNumber) -> (r: DualNumber)
        ensures
            r@ == curve_ys(*self, s@),
    {
        match self {
            Curves::Straight(l) => l.ys(s),
            Curves::Arc(a) => a.ys(s),
            Curves::Special(sc) => sc.ys(s),
        }
    }

    /// x-derivative of the curve at `s`, differentiated through the
    /// dual-number engine (no variant hand-codes it).
    pub fn dxs(&self, s: Fixed) -> (r: Fixed)
        ensures
            r@ == curve_dxs(*self, s@),
    {
        self.xs(DualNumber::from(s, Fixed::one())).get_b()
    }

    /// y-derivative of the curve at `s`, differentiated through the
    /// dual-number engine.
    pub fn dys(&self, s: Fixed) -> (r: Fixed)
        ensures
            r@ == curve_dys(*self, s@),
    {
        self.ys(DualNumber::from(s, Fixed::one())).get_b()
    }

    /// The arc-length speed at `s`.
    pub fn integrand(&self, s: Fixed) -> (r: Fixed)
        ensures
            r@ == curve_integrand(*self, s@),
    {
        proof {
            reveal(curve_integrand);
        }
        let dx = self.dxs(s);
        let dy = self.dys(s);
        let sum = dx.mul(dx).add(dy.mul(dy));
        proof {
            lemma_fx_square_nonneg(dx@);
            lemma_fx_square_nonneg(dy@);
        }
        sum.sqrt()
    }

    /// The arc length of the curve from its native start to `s`,
    /// together with the quadrature's non-convergence diagnostic: the
    /// estimate is returned either way, and an exhausted refinement
    /// budget is reported beside it instead of being logged.
    pub fn integrate_report(&self, s: Fixed) -> (r: (Fixed, Option<GridError>))
        ensures
            r.0@ == curve_integrate(*self, s@),
            (r.1 matches None) == curve_integrate_converged(*self, s@),
            r.1 matches Some(e) ==> e == GridError::NonConvergence,
    {
        proof {
            reveal(curve_integrate);
            reveal(curve_integrate_converged);
        }
        let cl = |p: Fixed| -> (rv: Fixed)
            ensures
                rv@ == curve_integrand(*self, p@),
            {
                self.integrand(p)
            };
        let smin = self.get_smin();
        let res = asi(&cl, smin, s);
        proof {
            assert(implements(cl, curve_integrand_fn(*self))) by {
                assert forall|x: Fixed, fx: Fixed| #[trigger]
                    call_ensures(cl, (x,), fx) implies fx@ == curve_integrand_fn(*self)(x@) by {}
            }
        }
        let diagnostic = if res.1 {
            None
        } else {
            Some(GridError::NonConvergence)
        };
        (res.0, diagnostic)
    }

    /// The arc length of the curve from its native start to `s` (the
    /// best available estimate, whether or not the quadrature
    /// converged).
    pub fn integrate(&self, s: Fixed) -> (r: Fixed)
        ensures
            r@ == curve_integrate(*self, s@),
    {
        self.integrate_report(s).0
    }

    /// The native parameter `p` with `integrate(p) == t * total`, found
    /// by Newton's method seeded at 0, together with the iteration's
    /// non-convergence diagnostic: the best available estimate is
    /// returned either way, and an exhausted iteration budget or a
    /// vanishing derivative is reported beside it.
    pub fn find_s_report(&self, t: Fixed) -> (r: (Fixed, Option<GridError>))
        ensures
            r.0@ == curve_find_s(*self, t@),
            (r.1 matches None) == curve_find_s_converged(*self, t@),
            r.1 matches Some(e) ==> e == GridError::NonConvergence,
    {
        proof {
            reveal(curve_find_s);
            reveal(curve_find_s_converged);
        }
        let smax = self.get_smax();
        let total = self.integrate(smax);
        let target = t.mul(total);
        let f = |p: Fixed| -> (rv: Fixed)
            ensures
                rv@ == fx_sub(curve_integrate(*self, p@), fx_mul(t@, curve_total(*self))),
            {
                self.integrate(p).sub(target)
            };
        let df = |p: Fixed| -> (rv: Fixed)
            ensures
                rv@ == curve_integrand(*self, p@),
            {
                self.integrand(p)
            };
        let res = newton(&f, &df, Fixed::zero());
        proof {
            assert(implements(f, curve_find_f(*self, t@))) by {
                assert forall|x: Fixed, fx: Fixed| #[trigger]
                    call_ensures(f, (x,), fx) implies fx@ == curve_find_f(*self, t@)(x@) by {}
            }
            assert(implements(df, curve_integrand_fn(*self))) by {
                assert forall|x: Fixed, fx: Fixed| #[trigger]
                    call_ensures(df, (x,), fx) implies fx@ == curve_integrand_fn(*self)(x@) by {}
            }
        }
        let diagnostic = if res.1 {
            None
        } else {
            Some(GridError::NonConvergence)
        };
        (res.0, diagnostic)
    }

    /// The native parameter at arc-length fraction `t` (the best
    /// available estimate, whether or not the iteration converged; the
    /// arc-length map is monotonic, so the seed converges for
    /// well-formed curves).
    pub fn find_s(&self, t: Fixed) -> (r: Fixed)
        ensures
            r@ == curve_find_s(*self, t@),
    {
        self.find_s_report(t).0
    }

    /// The physical point of the curve at arc-length fraction `t`, so
    /// that evenly spaced `t` values give approximately evenly spaced
    /// physical points whatever the native parametrization does.
    pub fn xy(&self, t: Fixed) -> (r: Point)
        ensures
            r@ == curve_xy(*self, t@),
    {
        proof {
            reveal(curve_xy);
        }
        let s = self.find_s(t);
        let d = DualNumber::from_real(s);
        Point::from(self.xs(d).get_a(), self.ys(d).get_a())
    }
}

} // verus!
