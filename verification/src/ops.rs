//! Operations on positions.
pub mod distance;
pub mod line;
