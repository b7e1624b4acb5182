//! Structured two-dimensional grid generation bounded by four parametric
//! curves, with differentiation of scalar fields sampled on such grids.
//!
//! All numerics run on the exact fixed-point scalar of [`fixed`], so every
//! routine carries a contract describing its result exactly.

pub mod curve_impl;
pub mod duals;
pub mod errors;
pub mod fixed;
pub mod functions;
pub mod geometry;
pub mod matrix;
pub mod numerical_methods;
