//! Structured errors of the library: invalid input geometry, combining
//! grid functions that do not share a domain instance, a grid whose
//! Jacobian is singular at some node, and an exhausted iteration or
//! refinement budget.

use vstd::prelude::*;

verus! {

/// What went wrong, threaded back to the caller instead of being logged.
#[derive(Clone, Copy, Debug, PartialEq, Eq, Structural)]
pub enum GridError {
    /// The four boundary curves do not close into a consistent loop.
    GeometryInconsistency,
    /// An iteration or refinement budget ran out before the tolerance
    /// was met.
    NonConvergence,
    /// Two grid functions built on different domain instances were
    /// combined.
    DomainMismatch,
    /// The geometry Jacobian vanished at a grid node, so physical
    /// derivatives are undefined there.
    SingularJacobian,
}

} // verus!
