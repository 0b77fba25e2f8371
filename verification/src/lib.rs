//! A verified engine for a small orbital courier game.
//!
//! A `Universe` is a rectangular window that holds star systems, the planets
//! that orbit them, and one packet that rides a planet or flies freely between
//! planets. Every quantity is an integer: angles are kept in tenths of a degree
//! and positions in millionths of a pixel, so that each step is exact and the
//! contracts below can pin every result down.
pub mod params;
pub mod random;
pub mod trig;
pub mod geometry;
pub mod packet;
pub mod universe;

pub use crate::geometry::circles_overlap;
pub use crate::packet::Packet;
pub use crate::random::RandomSource;
pub use crate::universe::{Planet, Star, Universe};
