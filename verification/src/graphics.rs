//! Geometry primitives in whole layout units.

pub mod rect;

pub use rect::{pos2, vec2, Area, Rect, Vec2, COORD_LIMIT};
