//! The packet: bound to a planet, or in free flight.
use vstd::prelude::*;
use crate::params::{DQ_STEP, FULL_TURN, MAX_PLANET_DQ, MIN_PACKET_DQ, SCALE};

verus! {

/// The packet is in one of two states.
///
/// Angles (`q`, `dq`) are in tenths of a degree, positions (`x`, `y`) in
/// millionths of a pixel and velocities (`dx`, `dy`) in millionths of a pixel
/// per tick.
#[derive(Clone, Copy, Debug, PartialEq, Eq, Structural)]
pub enum Packet {
    /// The packet rides planet `planet`. `q` is the angle under which it
    /// would leave; it turns by `dq` each tick, forwards if `direction`.
    Bound { planet: usize, q: u32, dq: u32, direction: bool },
    /// The packet flies from `(x, y)` with velocity `(dx, dy)`. It left
    /// planet `last_planet`, which does not capture it again.
    Free { x: i64, y: i64, dx: i64, dy: i64, last_planet: usize },
}

/// The angle `q` after one turn of `dq`: forwards if `direction`, else
/// backwards. The result is taken modulo a full turn.
pub open spec fn turned(q: int, dq: int, direction: bool) -> int {
    if direction {
        (q + dq) % 3600
    } else {
        (q - dq) % 3600
    }
}

/// The angle `q` after `ticks` turns of `dq`.
pub open spec fn turned_often(q: int, dq: int, direction: bool, ticks: nat) -> int
    decreases ticks,
{
    if ticks == 0 {
        q
    } else {
        turned(turned_often(q, dq, direction, (ticks - 1) as nat), dq, direction)
    }
}

/// The angular speed of a packet on a planet of speed `planet_dq`: the faster
/// the planet, the slower the packet. A speed that would be negative turns
/// the other way round, which is the same as its remainder by a full turn.
pub open spec fn packet_speed(planet_dq: int) -> int {
    (MAX_PLANET_DQ * DQ_STEP + MIN_PACKET_DQ - planet_dq) % 3600
}

/// A point of the window `[0, width] x [0, height]` (in pixels), itself in
/// millionths of a pixel. The edge belongs to the window.
pub open spec fn in_window(x: int, y: int, width: int, height: int) -> bool {
    0 <= x <= width * SCALE && 0 <= y <= height * SCALE
}

/// The packet one tick later, and whether it is still inside the window. A
/// bound packet turns. A free packet moves by its velocity; if that would
/// take it out of the window, it stays as it is and `false` is reported.
pub open spec fn ticked(packet: Packet, width: u32, height: u32) -> (bool, Packet) {
    match packet {
        Packet::Bound { planet, q, dq, direction } => (
            true,
            Packet::Bound { planet, q: turned(q as int, dq as int, direction) as u32, dq, direction },
        ),
        Packet::Free { x, y, dx, dy, last_planet } => if in_window(
            x + dx,
            y + dy,
            width as int,
            height as int,
        ) {
            (true, Packet::Free { x: (x + dx) as i64, y: (y + dy) as i64, dx, dy, last_planet })
        } else {
            (false, packet)
        },
    }
}

/// Turns the angle `q` by `dq`, forwards if `direction`, else backwards.
/// The result lies in `[0, FULL_TURN)` whatever the arguments.
pub fn turn(q: u32, dq: u32, direction: bool) -> (angle: u32)
    ensures
        angle == turned(q as int, dq as int, direction),
        angle < FULL_TURN,
{
    let from: u32 = q % FULL_TURN;
    let by: u32 = dq % FULL_TURN;
    if direction {
        (from + by) % FULL_TURN
    } else {
        (from + (FULL_TURN - by)) % FULL_TURN
    }
}

/// However often an angle is turned, it stays inside one full turn: after the
/// first tick always, and from the start if it began there.
pub proof fn lemma_turns_stay_in_range(q: int, dq: int, direction: bool, ticks: nat)
    ensures
        ticks > 0 ==> 0 <= turned_often(q, dq, direction, ticks) < FULL_TURN,
        0 <= q < FULL_TURN ==> 0 <= turned_often(q, dq, direction, ticks) < FULL_TURN,
    decreases ticks,
{
    if ticks > 0 {
        lemma_turns_stay_in_range(q, dq, direction, (ticks - 1) as nat);
    }
}

impl Packet {
    /// A packet at rest in the corner of the window, bound to nothing.
    pub fn new() -> (packet: Packet)
        ensures
            packet == (Packet::Free { x: 0, y: 0, dx: 0, dy: 0, last_planet: 0 }),
    {
        Packet::Free { x: 0, y: 0, dx: 0, dy: 0, last_planet: 0 }
    }

    /// A packet on planet `planet`, aimed at angle `q`. Its own angular speed
    /// follows from the planet's, `planet_dq`.
    pub fn set_bound(planet: usize, q: u32, planet_dq: u32, direction: bool) -> (packet: Packet)
        ensures
            packet == (Packet::Bound {
                planet,
                q,
                dq: packet_speed(planet_dq as int) as u32,
                direction,
            }),
            packet_speed(planet_dq as int) < FULL_TURN,
            planet_dq <= MAX_PLANET_DQ * DQ_STEP + MIN_PACKET_DQ ==> packet_speed(planet_dq as int)
                == MAX_PLANET_DQ * DQ_STEP + MIN_PACKET_DQ - planet_dq,
    {
        let slow: u32 = planet_dq % FULL_TURN;
        let dq: u32 = (FULL_TURN + MAX_PLANET_DQ * DQ_STEP + MIN_PACKET_DQ - slow) % FULL_TURN;
        Packet::Bound { planet, q, dq, direction }
    }

    /// A packet in free flight.
    pub fn set_free(x: i64, y: i64, dx: i64, dy: i64, last_planet: usize) -> (packet: Packet)
        ensures
            packet == (Packet::Free { x, y, dx, dy, last_planet }),
    {
        Packet::Free { x, y, dx, dy, last_planet }
    }

    /// Advances the packet by one tick in a window of `width` by `height`
    /// pixels. The flag tells whether the packet is still inside the window;
    /// a packet that would leave is handed back unchanged.
    pub fn tick(packet: Packet, width: u32, height: u32) -> (next: (bool, Packet))
        ensures
            next == ticked(packet, width, height),
            next.0 == false ==> packet is Free && next.1 == packet,
            packet is Bound ==> next.1 is Bound,
            packet is Free ==> next.1 is Free,
    {
        match packet {
            Packet::Bound { planet, q, dq, direction } => {
                (true, Packet::Bound { planet, q: turn(q, dq, direction), dq, direction })
            },
            Packet::Free { x, y, dx, dy, last_planet } => {
                let new_x: i128 = x as i128 + dx as i128;
                let new_y: i128 = y as i128 + dy as i128;
                let scale: i128 = SCALE as i128;
                let right: i128 = width as i128 * scale;
                let bottom: i128 = height as i128 * scale;
                if new_x < 0 || new_x > right || new_y < 0 || new_y > bottom {
                    (false, packet)
                } else {
                    (
                        true,
                        Packet::Free { x: new_x as i64, y: new_y as i64, dx, dy, last_planet },
                    )
                }
            },
        }
    }

    /// Whether the packet rides a planet.
    pub fn is_bound(&self) -> (bound: bool)
        ensures
            bound == (*self is Bound),
    {
        match self {
            Packet::Bound { .. } => true,
            Packet::Free { .. } => false,
        }
    }

    /// The planet that does not capture the packet: the one it left, or the
    /// one it rides.
    pub fn get_last_planet(&self) -> (planet: usize)
        ensures
            planet == match *self {
                Packet::Bound { planet, .. } => planet,
                Packet::Free { last_planet, .. } => last_planet,
            },
    {
        match self {
            Packet::Bound { planet, .. } => *planet,
            Packet::Free { last_planet, .. } => *last_planet,
        }
    }
}

} // verus!
