//! Where the packet is, where it would hit the wall, and letting it go.
use vstd::prelude::*;
use crate::packet::{in_window, Packet};
use crate::params::{PACKET_SPEED, SCALE};
use crate::trig::{cosine, cosine_of, lemma_axes, lemma_signs, lemma_unit_vector, sine, sine_of};
use crate::universe::{lemma_planet_in_window, lemma_planets_stay_ok, Universe, UniverseView};

verus! {

/// The absolute value of `value`.
pub open spec fn magnitude(value: int) -> int {
    if value < 0 {
        -value
    } else {
        value
    }
}

/// How far a ray from the height `y` under the angle `q` runs sideways until
/// it would meet the top or the bottom wall: its room above or below, times
/// the cotangent of the angle.
pub open spec fn run_of_ray(bottom: int, y: int, q: int) -> int {
    let room = if q < 1800 {
        y
    } else {
        bottom - y
    };
    room * magnitude(cosine_of(q)) / magnitude(sine_of(q))
}

/// How far a ray from `x` under the angle `q` rises or falls until it would
/// meet the left or the right wall: its room to that side, times the tangent
/// of the angle.
pub open spec fn rise_of_ray(right: int, x: int, q: int) -> int {
    let room = if q < 900 || q > 2700 {
        right - x
    } else {
        x
    };
    room * magnitude(sine_of(q)) / magnitude(cosine_of(q))
}

/// Where a ray from `(x, y)` under the angle `q` ends horizontally, in a
/// window that is `right` wide and `bottom` high (all in millionths of a
/// pixel; `q` in tenths of a degree, less than a full turn).
///
/// The angle is measured against the screen: at a quarter turn the ray goes
/// straight up, towards the wall `y == 0`. Along the axes the end is exact.
/// In between, the ray runs sideways by the cotangent of its angle for each
/// unit it rises or falls until it would meet the top or the bottom wall, and
/// it ends at the side wall where that is nearer.
pub open spec fn wall_x(right: int, bottom: int, x: int, y: int, q: int) -> int {
    if q == 0 {
        right
    } else if q == 900 {
        x
    } else if q == 1800 {
        0
    } else if q == 2700 {
        x
    } else {
        let run = run_of_ray(bottom, y, q);
        if q < 900 || q > 2700 {
            if x + run > right {
                right
            } else {
                x + run
            }
        } else {
            if run <= x {
                x - run
            } else {
                0
            }
        }
    }
}

/// Where a ray from `(x, y)` under the angle `q` ends vertically; see
/// `wall_x`. In between the axes, the ray rises or falls by the tangent of
/// its angle for each unit it runs sideways until it would meet the left or
/// the right wall, and it ends at the top or bottom wall where that is
/// nearer.
pub open spec fn wall_y(right: int, bottom: int, x: int, y: int, q: int) -> int {
    if q == 0 {
        y
    } else if q == 900 {
        0
    } else if q == 1800 {
        y
    } else if q == 2700 {
        bottom
    } else {
        let rise = rise_of_ray(right, x, q);
        if q < 1800 {
            if rise <= y {
                y - rise
            } else {
                0
            }
        } else {
            if y + rise > bottom {
                bottom
            } else {
                y + rise
            }
        }
    }
}

impl UniverseView {
    /// Horizontal position of a free packet; 0 for a bound one.
    pub open spec fn packet_x(self) -> int {
        match self.packet {
            Packet::Bound { .. } => 0,
            Packet::Free { x, .. } => x as int,
        }
    }

    /// Vertical position of a free packet; 0 for a bound one.
    pub open spec fn packet_y(self) -> int {
        match self.packet {
            Packet::Bound { .. } => 0,
            Packet::Free { y, .. } => y as int,
        }
    }

    /// Where the flight of a bound packet would end horizontally if it were
    /// let go now; 0 for a free packet.
    pub open spec fn packet_end_x(self) -> int {
        match self.packet {
            Packet::Bound { planet, q, .. } => wall_x(
                self.width * SCALE,
                self.height * SCALE,
                self.planet_x(planet as int),
                self.planet_y(planet as int),
                q as int,
            ),
            Packet::Free { .. } => 0,
        }
    }

    /// Where the flight of a bound packet would end vertically if it were
    /// let go now; 0 for a free packet.
    pub open spec fn packet_end_y(self) -> int {
        match self.packet {
            Packet::Bound { planet, q, .. } => wall_y(
                self.width * SCALE,
                self.height * SCALE,
                self.planet_x(planet as int),
                self.planet_y(planet as int),
                q as int,
            ),
            Packet::Free { .. } => 0,
        }
    }

    /// The universe after a bound packet has been let go: the packet starts
    /// where its planet is and flies under the angle it was aimed at. A free
    /// packet stays as it is.
    pub open spec fn released(self) -> UniverseView {
        match self.packet {
            Packet::Bound { planet, q, .. } => UniverseView {
                packet: Packet::Free {
                    x: self.planet_x(planet as int) as i64,
                    y: self.planet_y(planet as int) as i64,
                    dx: (PACKET_SPEED * cosine_of(q as int)) as i64,
                    dy: (-PACKET_SPEED * sine_of(q as int)) as i64,
                    last_planet: planet,
                },
                ..self
            },
            Packet::Free { .. } => self,
        }
    }
}

/// In a consistent universe every planet is inside the window.
pub proof fn lemma_planets_in_window(view: UniverseView, planet: int)
    requires
        view.wf(),
        0 <= planet < view.planets.len(),
    ensures
        in_window(
            view.planet_x(planet),
            view.planet_y(planet),
            view.width as int,
            view.height as int,
        ),
{
    assert(view.planet_ok(planet));
    lemma_planet_in_window(view.star_of(planet), view.planets[planet], view.width, view.height);
}

/// Between the axes a ray from inside the window runs and rises by no
/// negative amount: neither coordinate of its direction is 0 there.
pub proof fn lemma_ray_advances(right: int, bottom: int, x: int, y: int, q: int)
    requires
        0 <= x <= right,
        0 <= y <= bottom,
        0 <= q < 3600,
        q % 900 != 0,
    ensures
        run_of_ray(bottom, y, q) >= 0,
        rise_of_ray(right, x, q) >= 0,
        cosine_of(q) != 0,
        sine_of(q) != 0,
{
    lemma_signs(q);
    let c = magnitude(cosine_of(q));
    let s = magnitude(sine_of(q));
    let room_x = if q < 1800 {
        y
    } else {
        bottom - y
    };
    let room_y = if q < 900 || q > 2700 {
        right - x
    } else {
        x
    };
    assert(room_x * c / s >= 0) by (nonlinear_arith)
        requires
            room_x >= 0,
            c > 0,
            s > 0,
    ;
    assert(room_y * s / c >= 0) by (nonlinear_arith)
        requires
            room_y >= 0,
            c > 0,
            s > 0,
    ;
}

/// The flight of a packet ends inside the window.
pub proof fn lemma_wall_in_window(right: int, bottom: int, x: int, y: int, q: int)
    requires
        0 <= x <= right,
        0 <= y <= bottom,
        0 <= q < 3600,
    ensures
        0 <= wall_x(right, bottom, x, y, q) <= right,
        0 <= wall_y(right, bottom, x, y, q) <= bottom,
{
    if q % 900 != 0 {
        lemma_ray_advances(right, bottom, x, y, q);
    }
}

/// Along the four axes the flight ends exactly: to the right at the right
/// wall, straight up at the top wall, to the left at the left wall and
/// straight down at the bottom wall.
pub proof fn lemma_axis_flights(right: int, bottom: int, x: int, y: int)
    ensures
        wall_x(right, bottom, x, y, 0) == right && wall_y(right, bottom, x, y, 0) == y,
        wall_x(right, bottom, x, y, 900) == x && wall_y(right, bottom, x, y, 900) == 0,
        wall_x(right, bottom, x, y, 1800) == 0 && wall_y(right, bottom, x, y, 1800) == y,
        wall_x(right, bottom, x, y, 2700) == x && wall_y(right, bottom, x, y, 2700) == bottom,
{
}

/// A packet that is let go heads for the point where its flight was shown
/// to end: it moves right only if that point is not to its left, up only if
/// that point is not below it, and so on; along an axis it keeps the other
/// coordinate. Straight up or down it has the full `PACKET_SPEED`.
pub proof fn lemma_flight_heads_for_wall(view: UniverseView)
    requires
        view.wf(),
        view.packet is Bound,
    ensures
        ({
            let from_x = view.planet_x(view.packet->planet as int);
            let from_y = view.planet_y(view.packet->planet as int);
            let free = view.released().packet;
            &&& free is Free
            &&& free->x == from_x && free->y == from_y
            &&& free->dx > 0 ==> view.packet_end_x() >= from_x
            &&& free->dx < 0 ==> view.packet_end_x() <= from_x
            &&& free->dx == 0 ==> view.packet_end_x() == from_x
            &&& free->dy > 0 ==> view.packet_end_y() >= from_y
            &&& free->dy < 0 ==> view.packet_end_y() <= from_y
            &&& free->dy == 0 ==> view.packet_end_y() == from_y
            &&& view.packet->q == 900 ==> free->dx == 0 && free->dy == -PACKET_SPEED * SCALE
            &&& view.packet->q == 2700 ==> free->dx == 0 && free->dy == PACKET_SPEED * SCALE
        }),
{
    let planet = view.packet->planet as int;
    let q = view.packet->q as int;
    let x = view.planet_x(planet);
    let y = view.planet_y(planet);
    lemma_planets_in_window(view, planet);
    lemma_wall_in_window(view.width * SCALE, view.height * SCALE, x, y, q);
    lemma_unit_vector(q);
    lemma_axes();
    if q % 900 != 0 {
        lemma_signs(q);
        lemma_ray_advances(view.width * SCALE, view.height * SCALE, x, y, q);
    }
}

/// How far a ray runs along one side while it covers `room` along the
/// other, where `along` and `across` are the lengths of its direction's
/// coordinates.
fn run_of(room: i64, along: i64, across: i64) -> (run: u128)
    requires
        0 <= room <= u32::MAX * SCALE,
        0 < along <= SCALE,
        0 < across <= SCALE,
    ensures
        run == room * along / (across as int),
        run <= u32::MAX * SCALE * SCALE,
{
    let space: u128 = room as u128;
    let step: u128 = along as u128;
    let part: u128 = across as u128;
    assert(space * step <= 0xffff_ffff * 1_000_000 * 1_000_000) by (nonlinear_arith)
        requires
            0 <= space <= 0xffff_ffff * 1_000_000,
            0 <= step <= 1_000_000,
    ;
    assert(space * step / (part as int) <= space * step) by (nonlinear_arith)
        requires
            0 <= space * step,
            0 < part,
    ;
    space * step / part
}

impl Universe {
    /// Horizontal position of a free packet, in millionths of a pixel; 0 for
    /// a bound one.
    pub fn packet_x(&self) -> (x: i64)
        ensures
            x == self@.packet_x(),
    {
        match self.packet {
            Packet::Bound { .. } => 0,
            Packet::Free { x, .. } => x,
        }
    }

    /// Vertical position of a free packet, in millionths of a pixel; 0 for a
    /// bound one.
    pub fn packet_y(&self) -> (y: i64)
        ensures
            y == self@.packet_y(),
    {
        match self.packet {
            Packet::Bound { .. } => 0,
            Packet::Free { y, .. } => y,
        }
    }

    /// Where the flight of a bound packet would end horizontally if it were
    /// let go now, in millionths of a pixel; 0 for a free packet.
    pub fn packet_end_x(&self) -> (end: i64)
        requires
            self.wf(),
        ensures
            end == self@.packet_end_x(),
            0 <= end <= self@.width * SCALE,
    {
        match self.packet {
            Packet::Bound { planet, q, .. } => {
                let x: i64 = self.planet_x(planet);
                let y: i64 = self.planet_y(planet);
                let scale: i64 = SCALE;
                let right: i64 = self.width as i64 * scale;
                let bottom: i64 = self.height as i64 * scale;
                proof {
                    lemma_planets_in_window(self@, planet as int);
                    lemma_wall_in_window(right as int, bottom as int, x as int, y as int, q as int);
                }
                if q == 0 {
                    right
                } else if q == 900 {
                    x
                } else if q == 1800 {
                    0
                } else if q == 2700 {
                    x
                } else {
                    proof {
                        lemma_signs(q as int);
                    }
                    let c: i64 = cosine(q);
                    let s: i64 = sine(q);
                    let along: i64 = if c < 0 {
                        -c
                    } else {
                        c
                    };
                    let across: i64 = if s < 0 {
                        -s
                    } else {
                        s
                    };
                    let room: i64 = if q < 1800 {
                        y
                    } else {
                        bottom - y
                    };
                    let run: u128 = run_of(room, along, across);
                    if q < 900 || q > 2700 {
                        if x as u128 + run > right as u128 {
                            right
                        } else {
                            (x as u128 + run) as i64
                        }
                    } else {
                        if run <= x as u128 {
                            (x as u128 - run) as i64
                        } else {
                            0
                        }
                    }
                }
            },
            Packet::Free { .. } => 0,
        }
    }

    /// Where the flight of a bound packet would end vertically if it were let
    /// go now, in millionths of a pixel; 0 for a free packet.
    pub fn packet_end_y(&self) -> (end: i64)
        requires
            self.wf(),
        ensures
            end == self@.packet_end_y(),
            0 <= end <= self@.height * SCALE,
    {
        match self.packet {
            Packet::Bound { planet, q, .. } => {
                let x: i64 = self.planet_x(planet);
                let y: i64 = self.planet_y(planet);
                let scale: i64 = SCALE;
                let right: i64 = self.width as i64 * scale;
                let bottom: i64 = self.height as i64 * scale;
                proof {
                    lemma_planets_in_window(self@, planet as int);
                    lemma_wall_in_window(right as int, bottom as int, x as int, y as int, q as int);
                }
                if q == 0 {
                    y
                } else if q == 900 {
                    0
                } else if q == 1800 {
                    y
                } else if q == 2700 {
                    bottom
                } else {
                    proof {
                        lemma_signs(q as int);
                    }
                    let c: i64 = cosine(q);
                    let s: i64 = sine(q);
                    let across: i64 = if c < 0 {
                        -c
                    } else {
                        c
                    };
                    let along: i64 = if s < 0 {
                        -s
                    } else {
                        s
                    };
                    let room: i64 = if q < 900 || q > 2700 {
                        right - x
                    } else {
                        x
                    };
                    let rise: u128 = run_of(room, along, across);
                    if q < 1800 {
                        if rise <= y as u128 {
                            (y as u128 - rise) as i64
                        } else {
                            0
                        }
                    } else {
                        if y as u128 + rise > bottom as u128 {
                            bottom
                        } else {
                            (y as u128 + rise) as i64
                        }
                    }
                }
            },
            Packet::Free { .. } => 0,
        }
    }

    /// Lets a bound packet go: it starts where its planet is and flies under
    /// the angle it was aimed at, with `PACKET_SPEED` pixels per tick. The
    /// planet it leaves does not capture it again. A free packet stays as it
    /// is.
    pub fn free_packet(&mut self)
        requires
            old(self).wf(),
        ensures
            final(self).wf(),
            final(self)@ == old(self)@.released(),
    {
        match self.packet {
            Packet::Bound { planet, q, .. } => {
                let x: i64 = self.planet_x(planet);
                let y: i64 = self.planet_y(planet);
                let c: i64 = cosine(q);
                let s: i64 = sine(q);
                proof {
                    lemma_planets_in_window(self@, planet as int);
                }
                let speed: i64 = PACKET_SPEED;
                self.packet = Packet::set_free(x, y, speed * c, -(speed * s), planet);
                proof {
                lemma_planets_stay_ok(old(self)@, self@);
            }
            },
            Packet::Free { .. } => {},
        }
    }
}

} // verus!
