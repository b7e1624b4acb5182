//! Geometric layer: points, boundary curves, and the generated domain.

pub mod curves;
pub mod domain;
pub mod point;
