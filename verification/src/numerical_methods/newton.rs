//! Root finding by Newton's method.
//!
//! Solves `f = 0` from an initial guess, iterating `x - f(x)/df(x)` until
//! the step size falls below the tolerance or the iteration budget runs
//! out.  Non-convergence is reported in the returned flag; the best
//! available estimate is returned either way.  A vanishing derivative
//! stops the iteration (fixed-point numbers have no infinity to divide
//! into) and is reported the same way.

use vstd::prelude::*;
use crate::fixed::{Fixed, fx_sub, fx_div, fx_abs, FX_SCALE};
use crate::numerical_methods::implements;

verus! {

/// Step-size tolerance of the default iteration, in raw units
/// (about 1e-7).
pub const NEWTON_TOL: i64 = 430;

/// Maximum number of Newton iterations of the default iteration.
pub const NEWTON_MAX_IT: u32 = 1000;

/// The estimate and convergence flag the iteration reaches from `x` with
/// current step size `err`, tolerance `tol` and `it_left` iterations
/// left, for a function with raw values `g` and derivative values `dg`.
pub open spec fn spec_newton_rec(
    g: spec_fn(int) -> int,
    dg: spec_fn(int) -> int,
    x: int,
    err: int,
    tol: int,
    it_left: nat,
) -> (int, bool)
    decreases it_left,
{
    if it_left == 0 {
        (x, false)
    } else if err <= tol {
        (x, true)
    } else if dg(x) == 0 {
        (x, false)
    } else {
        let x1 = fx_sub(x, fx_div(g(x), dg(x)));
        spec_newton_rec(g, dg, x1, fx_abs(fx_sub(x1, x)), tol, (it_left - 1) as nat)
    }
}

/// The estimate and convergence flag of the full iteration seeded at
/// `x0` (initial step size 1, the default tolerance and budget).
pub open spec fn spec_newton(
    g: spec_fn(int) -> int,
    dg: spec_fn(int) -> int,
    x0: int,
) -> (int, bool) {
    spec_newton_rec(g, dg, x0, FX_SCALE as int, NEWTON_TOL as int, NEWTON_MAX_IT as nat)
}

/// Solves the equation `f = 0` using Newton's method with initial guess
/// `x0` and the derivative `df` of `f`, at the default tolerance and
/// iteration budget.  Returns the final estimate and whether the step
/// size fell below the tolerance within the budget; on non-convergence
/// the best available estimate is returned.
pub fn newton<F: Fn(Fixed) -> Fixed, DF: Fn(Fixed) -> Fixed>(
    f: &F,
    df: &DF,
    x0: Fixed,
) -> (r: (Fixed, bool))
    requires
        forall|x: Fixed| call_requires(*f, (x,)),
        forall|x: Fixed| call_requires(*df, (x,)),
    ensures
        forall|g: spec_fn(int) -> int, dg: spec_fn(int) -> int|
            #[trigger] implements(*f, g) && #[trigger] implements(*df, dg) ==> r.0@
                == spec_newton(g, dg, x0@).0 && r.1 == spec_newton(g, dg, x0@).1,
{
    newton_wtol(f, df, x0, Fixed::from_raw(NEWTON_TOL), NEWTON_MAX_IT)
}

/// The iteration itself, with an explicit tolerance and budget.
fn newton_wtol<F: Fn(Fixed) -> Fixed, DF: Fn(Fixed) -> Fixed>(
    f: &F,
    df: &DF,
    x0: Fixed,
    tol: Fixed,
    max_it: u32,
) -> (r: (Fixed, bool))
    requires
        forall|x: Fixed| call_requires(*f, (x,)),
        forall|x: Fixed| call_requires(*df, (x,)),
    ensures
        forall|g: spec_fn(int) -> int, dg: spec_fn(int) -> int|
            #[trigger] implements(*f, g) && #[trigger] implements(*df, dg) ==> r.0@
                == spec_newton_rec(g, dg, x0@, FX_SCALE as int, tol@, max_it as nat).0 && r.1
                == spec_newton_rec(g, dg, x0@, FX_SCALE as int, tol@, max_it as nat).1,
{
    let mut x: Fixed = x0;
    let mut err: Fixed = Fixed::one();
    let mut it: u32 = 0;
    let mut stalled: bool = false;
    while err.raw() > tol.raw() && it < max_it && !stalled
        invariant
            forall|x2: Fixed| call_requires(*f, (x2,)),
            forall|x2: Fixed| call_requires(*df, (x2,)),
            it <= max_it,
            forall|g: spec_fn(int) -> int, dg: spec_fn(int) -> int|
                #[trigger] implements(*f, g) && #[trigger] implements(*df, dg) ==> {
                    let tail = if stalled {
                        (x@, false)
                    } else {
                        spec_newton_rec(g, dg, x@, err@, tol@, (max_it - it) as nat)
                    };
                    spec_newton_rec(g, dg, x0@, FX_SCALE as int, tol@, max_it as nat) == tail
                },
        decreases max_it - it, (if stalled { 0int } else { 1int }),
    {
        let fv = f(x);
        let dv = df(x);
        if dv.raw() == 0 {
            proof {
                assert forall|g: spec_fn(int) -> int, dg: spec_fn(int) -> int|
                    #[trigger] implements(*f, g) && #[trigger] implements(*df, dg) implies
                    spec_newton_rec(g, dg, x0@, FX_SCALE as int, tol@, max_it as nat) == (
                    x@,
                    false,
                ) by {
                    assert(dv@ == dg(x@));
                }
            }
            stalled = true;
        } else {
            let x1 = x.sub(fv.div(dv));
            let step = x1.sub(x).abs();
            proof {
                assert forall|g: spec_fn(int) -> int, dg: spec_fn(int) -> int|
                    #[trigger] implements(*f, g) && #[trigger] implements(*df, dg) implies
                    spec_newton_rec(g, dg, x0@, FX_SCALE as int, tol@, max_it as nat)
                    == spec_newton_rec(
                    g,
                    dg,
                    x1@,
                    step@,
                    tol@,
                    (max_it - (it + 1)) as nat,
                ) by {
                    assert(fv@ == g(x@));
                    assert(dv@ == dg(x@));
                }
            }
            x = x1;
            err = step;
            it = it + 1;
        }
    }
    let converged: bool = !stalled && it < max_it;
    proof {
        assert forall|g: spec_fn(int) -> int, dg: spec_fn(int) -> int|
            #[trigger] implements(*f, g) && #[trigger] implements(*df, dg) implies
            spec_newton_rec(g, dg, x0@, FX_SCALE as int, tol@, max_it as nat) == (
            x@,
            converged,
        ) by {}
    }
    (x, converged)
}

} // verus!
