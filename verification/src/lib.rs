//! A terse crate for 2D integer geometry.
pub mod grid;
pub mod index;
pub mod integer;
pub mod internal;
pub mod layout;
pub mod ops;
pub mod pos;
pub mod rect;
pub mod size;

pub use pos::{Pos, TryFromPos, TryFromPosError, TryIntoPos};
pub use rect::{Bounds, Rect, RectError};
pub use size::{HasSize, Size};
