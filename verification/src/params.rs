//! The fixed sizes, counts and units of the engine.
use vstd::prelude::*;

verus! {

/// Smallest body radius of a star, in pixels.
pub const MIN_STAR_RADIUS: u32 = 8;

/// Exclusive upper bound of a star's body radius, in pixels.
pub const MAX_STAR_RADIUS: u32 = 12;

/// Smallest body radius of a planet, in pixels.
pub const MIN_PLANET_RADIUS: u32 = 3;

/// Exclusive upper bound of a planet's body radius, in pixels.
pub const MAX_PLANET_RADIUS: u32 = 8;

/// Smallest system radius of a star, in pixels.
pub const MIN_STAR_SYSTEM_RADIUS: u32 = 150;

/// Exclusive upper bound of a star's system radius, in pixels.
pub const MAX_STAR_SYSTEM_RADIUS: u32 = 300;

/// Smallest number of planets around one star.
pub const MIN_NUM_PLANETS: u32 = 1;

/// Exclusive upper bound of the number of planets around one star.
pub const MAX_NUM_PLANETS: u32 = 6;

/// Smallest number of stars.
pub const MIN_NUM_STARS: u32 = 3;

/// Exclusive upper bound of the number of stars.
pub const MAX_NUM_STARS: u32 = 5;

/// Smallest angular speed of a planet, in speed steps.
pub const MIN_PLANET_DQ: u32 = 1;

/// Exclusive upper bound of a planet's angular speed, in speed steps.
pub const MAX_PLANET_DQ: u32 = 8;

/// How many body radii of clearance a planet keeps: towards its star, towards
/// the edge of its system, towards its neighbours, and around itself when it
/// captures a packet.
pub const PLANET_ACTIVATE_RANGE: u32 = 3;

/// How often one slot is drawn again, and how often one whole set is started
/// over, before the placement gives up.
pub const MAX_TRIES: u32 = 10;

/// A full turn, in tenths of a degree. Every phase and angular speed is
/// counted in this unit.
pub const FULL_TURN: u32 = 3600;

/// A quarter of a turn, in tenths of a degree.
pub const QUARTER_TURN: u32 = 900;

/// One degree, in tenths of a degree.
pub const DEGREE: u32 = 10;

/// One speed step (a fifth of a degree per tick), in tenths of a degree.
pub const DQ_STEP: u32 = 2;

/// The angular speed a packet would have on a planet that stood still, less
/// the fastest planet speed: one degree per tick.
pub const MIN_PACKET_DQ: u32 = 10;

/// One pixel, in the unit of positions and velocities (a millionth of a
/// pixel). It is also the length of the unit vector that `sine` and `cosine`
/// describe.
pub const SCALE: i64 = 1_000_000;

/// Speed of a free packet, in pixels per tick.
pub const PACKET_SPEED: i64 = 13;

/// Radius of the packet, in pixels.
pub const PACKET_RADIUS: u32 = 7;

/// Radius of the ring drawn around the planet that holds the packet, in
/// tenths of the planet's radius.
pub const HOLDER_RING: u32 = 15;

/// Radius of the ring drawn around the source and the destination, in tenths
/// of the planet's radius.
pub const ENDPOINT_RING: u32 = 18;

} // verus!
