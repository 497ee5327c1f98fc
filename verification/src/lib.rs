//! Full-equivalent-cycle tracking for batteries.
//!
//! The crate integrates discharge current over time in exact fixed-point
//! arithmetic and reports battery wear as a monotonically non-decreasing
//! cycle count: cumulative discharged charge divided by rated capacity.

pub mod counter;
pub mod laws;

pub use counter::BatteryCycleCounter;
