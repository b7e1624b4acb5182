//! Concrete boundary curve variants.  Each supplies only its native
//! parametrization domain and dual-valued position functions; arc-length
//! machinery is derived uniformly in `geometry::curves`.

pub mod circle_arc;
pub mod special_curve;
pub mod straight_line;
