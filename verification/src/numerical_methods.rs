//! Numerical primitives: adaptive quadrature and root finding.
//!
//! Both take the function to work on as a closure.  Their contracts are
//! stated against any spec-level function the closure implements
//! ([`implements`]): whenever every result the closure can return agrees
//! with a spec function `g`, the routine's result is exactly the value the
//! corresponding recursive specification computes from `g`.

use vstd::prelude::*;
use crate::fixed::Fixed;

pub mod asymptotic_simpsons;
pub mod newton;

verus! {

/// The closure `f` implements the spec-level function `g` on raw values:
/// every result it may return on `x` denotes exactly `g(x@)`.
pub open spec fn implements<F: Fn(Fixed) -> Fixed>(f: F, g: spec_fn(int) -> int) -> bool {
    forall|x: Fixed, fx: Fixed| #[trigger] call_ensures(f, (x,), fx) ==> fx@ == g(x@)
}

} // verus!
