//! Adaptive quadrature: asymptotic Simpson integration.
//!
//! The whole-interval Simpson estimate is compared against the sum of the
//! two half-interval estimates; where they agree within the current
//! tolerance the refined estimate is accepted, otherwise each half is
//! integrated recursively with the tolerance halved, so the accumulated
//! error stays within the original budget.  A depth cap guarantees
//! termination; running out of it is reported in the returned flag, with
//! the best available estimate still returned.

use vstd::prelude::*;
use crate::fixed::{Fixed, fx_add, fx_sub, fx_mul, fx_abs, fx_tdiv, FX_SCALE};
use crate::numerical_methods::implements;

verus! {

/// Initial quadrature tolerance, in raw units (about 1e-8).
pub const ASI_TOL: i64 = 43;

/// Maximum recursive refinement depth.
pub const ASI_DEPTH: u32 = 20;

/// Floor under the halved tolerance, in raw units: refining below the
/// precision of the arithmetic itself cannot converge, so the tolerance
/// budget is never split past this quantum.
pub const ASI_TOL_MIN: i64 = 8;

/// The tolerance passed to each half of a split interval: half the
/// current tolerance, floored at the arithmetic quantum.
pub open spec fn spec_half_tol(tol: int) -> int {
    if fx_tdiv(tol, 2) < ASI_TOL_MIN {
        ASI_TOL_MIN as int
    } else {
        fx_tdiv(tol, 2)
    }
}

/// Midpoint of an interval, at raw precision.
pub open spec fn spec_mid(a: int, b: int) -> int {
    fx_tdiv(fx_add(a, b), 2)
}

/// Simpson's-rule estimate over [a, b] of a function with raw values
/// `g`: (b - a) * (g(a) + 4 g(m) + g(b)) / 6 in fixed-point arithmetic.
pub open spec fn spec_simpson(g: spec_fn(int) -> int, a: int, b: int) -> int {
    fx_tdiv(
        fx_mul(
            fx_sub(b, a),
            fx_add(fx_add(g(a), fx_mul(4 * (FX_SCALE as int), g(spec_mid(a, b)))), g(b)),
        ),
        6,
    )
}

/// The value and convergence flag of the adaptive refinement of `g` over
/// [a, b] with tolerance `tol` and `depth` refinement levels left.
pub open spec fn spec_asi_rec(
    g: spec_fn(int) -> int,
    a: int,
    b: int,
    tol: int,
    depth: nat,
) -> (int, bool)
    decreases depth,
{
    let i1 = spec_simpson(g, a, b);
    let m = spec_mid(a, b);
    let i2 = fx_add(spec_simpson(g, a, m), spec_simpson(g, m, b));
    let err = fx_abs(fx_sub(i1, i2));
    if err < tol {
        (i2, true)
    } else if depth == 0 {
        (i2, false)
    } else {
        let left = spec_asi_rec(g, a, m, spec_half_tol(tol), (depth - 1) as nat);
        let right = spec_asi_rec(g, m, b, spec_half_tol(tol), (depth - 1) as nat);
        (fx_add(left.0, right.0), left.1 && right.1)
    }
}

/// The adaptive Simpson integral of `g` over [a, b] at the default
/// tolerance and depth budget.
pub open spec fn spec_asi(g: spec_fn(int) -> int, a: int, b: int) -> (int, bool) {
    spec_asi_rec(g, a, b, ASI_TOL as int, ASI_DEPTH as nat)
}

/// One Simpson's-rule estimate over [a, b].
fn simpson_quad<F: Fn(Fixed) -> Fixed>(f: &F, a: Fixed, b: Fixed) -> (r: Fixed)
    requires
        forall|x: Fixed| call_requires(*f, (x,)),
    ensures
        forall|g: spec_fn(int) -> int|
            #[trigger] implements(*f, g) ==> r@ == spec_simpson(g, a@, b@),
{
    let m = a.add(b).div_int(2);
    let fa = f(a);
    let fm = f(m);
    let fb = f(b);
    let four = Fixed::from_int(4);
    let sum = fa.add(four.mul(fm)).add(fb);
    let r = b.sub(a).mul(sum).div_int(6);
    proof {
        assert forall|g: spec_fn(int) -> int| #[trigger]
            implements(*f, g) implies r@ == spec_simpson(g, a@, b@) by {
            assert(fa@ == g(a@));
            assert(fm@ == g(m@));
            assert(fb@ == g(b@));
        }
    }
    r
}

/// Adaptive refinement with explicit tolerance and depth budget.
fn asi_wtol<F: Fn(Fixed) -> Fixed>(
    f: &F,
    a: Fixed,
    b: Fixed,
    tol: Fixed,
    depth: u32,
) -> (r: (Fixed, bool))
    requires
        forall|x: Fixed| call_requires(*f, (x,)),
    ensures
        forall|g: spec_fn(int) -> int| #[trigger]
            implements(*f, g) ==> r.0@ == spec_asi_rec(g, a@, b@, tol@, depth as nat).0 && r.1
                == spec_asi_rec(g, a@, b@, tol@, depth as nat).1,
    decreases depth,
{
    let i1 = simpson_quad(f, a, b);
    let m = a.add(b).div_int(2);
    let i2 = simpson_quad(f, a, m).add(simpson_quad(f, m, b));
    let err = i1.sub(i2).abs();
    if err.lt(tol) {
        proof {
            assert forall|g: spec_fn(int) -> int| #[trigger]
                implements(*f, g) implies i2@ == spec_asi_rec(g, a@, b@, tol@, depth as nat).0
                && true == spec_asi_rec(g, a@, b@, tol@, depth as nat).1 by {
                assert(i1@ == spec_simpson(g, a@, b@));
            }
        }
        (i2, true)
    } else if depth == 0 {
        proof {
            assert forall|g: spec_fn(int) -> int| #[trigger]
                implements(*f, g) implies i2@ == spec_asi_rec(g, a@, b@, tol@, depth as nat).0
                && false == spec_asi_rec(g, a@, b@, tol@, depth as nat).1 by {
                assert(i1@ == spec_simpson(g, a@, b@));
            }
        }
        (i2, false)
    } else {
        let half = tol.div_int(2);
        let half_tol = if half.raw() < ASI_TOL_MIN {
            Fixed::from_raw(ASI_TOL_MIN)
        } else {
            half
        };
        let left = asi_wtol(f, a, m, half_tol, depth - 1);
        let right = asi_wtol(f, m, b, half_tol, depth - 1);
        let value = left.0.add(right.0);
        let converged = left.1 && right.1;
        proof {
            assert forall|g: spec_fn(int) -> int| #[trigger]
                implements(*f, g) implies value@ == spec_asi_rec(g, a@, b@, tol@, depth as nat).0
                && converged == spec_asi_rec(g, a@, b@, tol@, depth as nat).1 by {
                assert(i1@ == spec_simpson(g, a@, b@));
                assert(left.0@ == spec_asi_rec(g, a@, m@, half_tol@, (depth - 1) as nat).0);
                assert(right.0@ == spec_asi_rec(g, m@, b@, half_tol@, (depth - 1) as nat).0);
            }
        }
        (value, converged)
    }
}

/// Integrates `f` over [a, b] adaptively at the default tolerance.
/// Returns the estimate together with a flag telling whether every
/// subinterval converged within the refinement budget; on exhaustion the
/// best available estimate is still returned.
pub fn asi<F: Fn(Fixed) -> Fixed>(f: &F, a: Fixed, b: Fixed) -> (r: (Fixed, bool))
    requires
        forall|x: Fixed| call_requires(*f, (x,)),
    ensures
        forall|g: spec_fn(int) -> int| #[trigger]
            implements(*f, g) ==> r.0@ == spec_asi(g, a@, b@).0 && r.1 == spec_asi(g, a@, b@).1,
{
    let tol = Fixed::from_raw(ASI_TOL);
    asi_wtol(f, a, b, tol, ASI_DEPTH)
}

} // verus!
