//! The universe: a window, its stars and planets, the packet and the score.
use vstd::prelude::*;
use crate::geometry::{disc_in_window, discs_overlap, lemma_overlap_symmetric};
use crate::packet::{in_window, Packet};
use crate::params::{FULL_TURN, PLANET_ACTIVATE_RANGE, SCALE};
use crate::trig::{cosine, cosine_of, lemma_unit_vector, sine, sine_of};

pub mod flight;
pub mod orbits;
pub mod parts;
pub mod placement;
pub mod step;

verus! {

/// A star: its centre and body radius, and the radius of the system around
/// it, inside which its planets orbit. All in pixels.
#[derive(Clone, Copy, Debug, PartialEq, Eq, Structural)]
pub struct Star {
    pub x: u32,
    pub y: u32,
    pub radius: u32,
    pub system_radius: u32,
}

/// A planet: the index of its star, its body radius and its distance from
/// the star in pixels, its phase `q` and angular speed `dq` in tenths of a
/// degree, and whether it turns forwards.
#[derive(Clone, Copy, Debug, PartialEq, Eq, Structural)]
pub struct Planet {
    pub star: usize,
    pub radius: u32,
    pub distance: u32,
    pub q: u32,
    pub dq: u32,
    pub direction: bool,
}

impl Star {
    /// The systems of the two stars overlap.
    pub open spec fn overlaps(self, other: Star) -> bool {
        discs_overlap(
            self.x as int,
            self.y as int,
            self.system_radius as int,
            other.x as int,
            other.y as int,
            other.system_radius as int,
        )
    }

    /// The system of the star lies inside the window.
    pub open spec fn inside(self, width: u32, height: u32) -> bool {
        disc_in_window(
            width as int,
            height as int,
            self.x as int,
            self.y as int,
            self.system_radius as int,
        )
    }

    /// The least distance at which a planet of radius `radius` may orbit.
    pub open spec fn orbit_low(self, radius: int) -> int {
        self.radius + PLANET_ACTIVATE_RANGE * radius
    }

    /// The greatest distance at which a planet of radius `radius` may orbit.
    pub open spec fn orbit_high(self, radius: int) -> int {
        self.system_radius - PLANET_ACTIVATE_RANGE * radius
    }
}

impl Planet {
    /// The orbit keeps clear of the star and stays inside the star's system.
    pub open spec fn in_annulus(self, star: Star) -> bool {
        star.orbit_low(self.radius as int) <= self.distance <= star.orbit_high(self.radius as int)
    }

    /// The orbits of two planets of one star are too close to each other.
    pub open spec fn collides(self, other: Planet) -> bool {
        let gap = if self.distance >= other.distance {
            self.distance - other.distance
        } else {
            other.distance - self.distance
        };
        gap < PLANET_ACTIVATE_RANGE * (self.radius + other.radius)
    }

    /// The whole orbit around `star` lies inside the window.
    pub open spec fn orbit_inside(self, star: Star, width: u32, height: u32) -> bool {
        disc_in_window(
            width as int,
            height as int,
            star.x as int,
            star.y as int,
            self.distance as int,
        )
    }

    /// Horizontal position of the planet around `star`, in millionths of a
    /// pixel.
    pub open spec fn x(self, star: Star) -> int {
        star.x * SCALE + self.distance * cosine_of(self.q as int)
    }

    /// Vertical position of the planet around `star`, in millionths of a
    /// pixel.
    pub open spec fn y(self, star: Star) -> int {
        star.y * SCALE + self.distance * sine_of(self.q as int)
    }
}

/// A universe. Its state is read through its view and through the getters.
#[derive(Clone, Debug)]
pub struct Universe {
    width: u32,
    height: u32,
    score: u32,
    packet: Packet,
    packet_source: usize,
    packet_destination: usize,
    packet_reached_destination: bool,
    stars: Vec<Star>,
    planets: Vec<Planet>,
}

/// What a universe holds.
pub ghost struct UniverseView {
    /// Width of the window, in pixels.
    pub width: u32,
    /// Height of the window, in pixels.
    pub height: u32,
    /// Number of round trips made so far.
    pub score: u32,
    pub packet: Packet,
    /// The planet the packet sets out from and has to come back to.
    pub source: usize,
    /// The planet the packet has to visit.
    pub destination: usize,
    /// Whether the packet has visited the destination on this trip.
    pub reached: bool,
    pub stars: Seq<Star>,
    pub planets: Seq<Planet>,
}

impl UniverseView {
    /// The star that planet `planet` orbits.
    pub open spec fn star_of(self, planet: int) -> Star {
        self.stars[self.planets[planet].star as int]
    }

    /// Horizontal position of planet `planet` in millionths of a pixel; 0
    /// where there is no such planet.
    pub open spec fn planet_x(self, planet: int) -> int {
        if 0 <= planet < self.planets.len() && self.planets[planet].star < self.stars.len() {
            self.planets[planet].x(self.star_of(planet))
        } else {
            0
        }
    }

    /// Vertical position of planet `planet` in millionths of a pixel; 0 where
    /// there is no such planet.
    pub open spec fn planet_y(self, planet: int) -> int {
        if 0 <= planet < self.planets.len() && self.planets[planet].star < self.stars.len() {
            self.planets[planet].y(self.star_of(planet))
        } else {
            0
        }
    }

    /// Planet `planet` belongs to a star of this universe, its orbit lies
    /// inside the window and its phase inside a full turn.
    pub open spec fn planet_ok(self, planet: int) -> bool {
        &&& self.planets[planet].star < self.stars.len()
        &&& self.planets[planet].q < FULL_TURN
        &&& self.planets[planet].orbit_inside(self.star_of(planet), self.width, self.height)
    }

    /// A bound packet rides a planet of this universe and is aimed inside a
    /// full turn; a free packet is inside the window.
    pub open spec fn packet_ok(self) -> bool {
        match self.packet {
            Packet::Bound { planet, q, .. } => planet < self.planets.len() && q < FULL_TURN,
            Packet::Free { x, y, .. } => in_window(
                x as int,
                y as int,
                self.width as int,
                self.height as int,
            ),
        }
    }

    /// The universe is consistent. Every operation keeps it so but for new
    /// stars under planets that are there: `generate_stars` may start its set
    /// over and take the stars away that those planets orbit.
    pub open spec fn wf(self) -> bool {
        &&& self.stars.len() <= u32::MAX
        &&& self.planets.len() <= u32::MAX
        &&& forall|p: int| 0 <= p < self.planets.len() ==> #[trigger] self.planet_ok(p)
        &&& self.packet_ok()
        &&& self.source == 0 || self.source < self.planets.len()
        &&& self.destination == 0 || self.destination < self.planets.len()
    }

    /// The same universe, emptied: no star, no planet, the packet at rest.
    /// The size of the window and the score stay.
    pub open spec fn cleared(self) -> UniverseView {
        UniverseView {
            packet: Packet::Free { x: 0, y: 0, dx: 0, dy: 0, last_planet: 0 },
            source: 0,
            destination: 0,
            reached: false,
            stars: Seq::empty(),
            planets: Seq::empty(),
            ..self
        }
    }

    /// There is nothing in the window.
    pub open spec fn blank(self) -> bool {
        self == self.cleared()
    }

    /// No two star systems overlap.
    pub open spec fn stars_apart(self) -> bool {
        forall|i: int, j: int|
            0 <= i < j < self.stars.len() ==> !(#[trigger] self.stars[i]).overlaps(
                #[trigger] self.stars[j],
            )
    }

    /// Every star system lies inside the window.
    pub open spec fn stars_inside(self) -> bool {
        forall|i: int|
            0 <= i < self.stars.len() ==> (#[trigger] self.stars[i]).inside(self.width, self.height)
    }

    /// Every planet orbits one of the stars, clear of the star and inside
    /// its system.
    pub open spec fn planets_in_annulus(self) -> bool {
        forall|p: int|
            0 <= p < self.planets.len() ==> (#[trigger] self.planets[p]).star < self.stars.len()
                && self.planets[p].in_annulus(self.star_of(p))
    }

    /// No two planets of one star collide.
    pub open spec fn orbits_apart(self) -> bool {
        forall|a: int, b: int|
            0 <= a < b < self.planets.len() && (#[trigger] self.planets[a]).star == (
            #[trigger] self.planets[b]).star ==> !self.planets[a].collides(self.planets[b])
    }

    /// The placement is valid: what every generated universe satisfies.
    pub open spec fn placement_valid(self) -> bool {
        &&& self.stars_apart()
        &&& self.stars_inside()
        &&& self.planets_in_annulus()
        &&& self.orbits_apart()
    }
}

impl View for Universe {
    type V = UniverseView;

    closed spec fn view(&self) -> UniverseView {
        UniverseView {
            width: self.width,
            height: self.height,
            score: self.score,
            packet: self.packet,
            source: self.packet_source,
            destination: self.packet_destination,
            reached: self.packet_reached_destination,
            stars: self.stars@,
            planets: self.planets@,
        }
    }
}

impl Universe {
    /// The universe is consistent.
    pub open spec fn wf(&self) -> bool {
        self@.wf()
    }

    /// A universe with nothing in it yet.
    pub fn empty(width: u32, height: u32) -> (universe: Universe)
        ensures
            universe.wf(),
            universe@.blank(),
            universe@.stars.len() == 0,
            universe@.planets.len() == 0,
            universe@.width == width,
            universe@.height == height,
            universe@.score == 0,
    {
        Universe {
            width,
            height,
            score: 0,
            packet: Packet::new(),
            packet_source: 0,
            packet_destination: 0,
            packet_reached_destination: false,
            stars: Vec::new(),
            planets: Vec::new(),
        }
    }

    /// Empties the window. The size of the window and the score stay.
    pub fn reset(&mut self)
        ensures
            final(self).wf(),
            final(self)@ == old(self)@.cleared(),
    {
        self.packet = Packet::new();
        self.packet_source = 0;
        self.packet_destination = 0;
        self.packet_reached_destination = false;
        self.stars.clear();
        self.planets.clear();
    }

    /// Width of the window, in pixels.
    pub fn width(&self) -> (width: u32)
        ensures
            width == self@.width,
    {
        self.width
    }

    /// Height of the window, in pixels.
    pub fn height(&self) -> (height: u32)
        ensures
            height == self@.height,
    {
        self.height
    }

    /// Number of stars.
    pub fn num_stars(&self) -> (n: usize)
        ensures
            n == self@.stars.len(),
    {
        self.stars.len()
    }

    /// Number of planets.
    pub fn num_planets(&self) -> (n: usize)
        ensures
            n == self@.planets.len(),
    {
        self.planets.len()
    }

    /// Number of round trips made so far.
    pub fn score(&self) -> (score: u32)
        ensures
            score == self@.score,
    {
        self.score
    }

    /// The packet.
    pub fn packet(&self) -> (packet: Packet)
        ensures
            packet == self@.packet,
    {
        self.packet
    }

    /// The planet the packet sets out from and has to come back to.
    pub fn packet_source(&self) -> (planet: usize)
        ensures
            planet == self@.source,
    {
        self.packet_source
    }

    /// The planet the packet has to visit.
    pub fn packet_destination(&self) -> (planet: usize)
        ensures
            planet == self@.destination,
    {
        self.packet_destination
    }

    /// Whether the packet has visited the destination on this trip.
    pub fn packet_reached_destination(&self) -> (reached: bool)
        ensures
            reached == self@.reached,
    {
        self.packet_reached_destination
    }

    /// Star `star`, if there is one.
    pub fn star(&self, star: usize) -> (body: Option<Star>)
        ensures
            body == if star < self@.stars.len() {
                Some(self@.stars[star as int])
            } else {
                None
            },
    {
        if star < self.stars.len() {
            Some(self.stars[star])
        } else {
            None
        }
    }

    /// Planet `planet`, if there is one.
    pub fn planet(&self, planet: usize) -> (body: Option<Planet>)
        ensures
            body == if planet < self@.planets.len() {
                Some(self@.planets[planet as int])
            } else {
                None
            },
    {
        if planet < self.planets.len() {
            Some(self.planets[planet])
        } else {
            None
        }
    }

    /// Horizontal position of star `star`, in pixels; 0 where there is no
    /// such star.
    pub fn star_x(&self, star: usize) -> (x: u32)
        ensures
            x == if star < self@.stars.len() {
                self@.stars[star as int].x
            } else {
                0
            },
    {
        if star < self.stars.len() {
            self.stars[star].x
        } else {
            0
        }
    }

    /// Vertical position of star `star`, in pixels; 0 where there is no such
    /// star.
    pub fn star_y(&self, star: usize) -> (y: u32)
        ensures
            y == if star < self@.stars.len() {
                self@.stars[star as int].y
            } else {
                0
            },
    {
        if star < self.stars.len() {
            self.stars[star].y
        } else {
            0
        }
    }

    /// System radius of star `star`, in pixels; 0 where there is no such
    /// star.
    pub fn star_system_radius(&self, star: usize) -> (radius: u32)
        ensures
            radius == if star < self@.stars.len() {
                self@.stars[star as int].system_radius
            } else {
                0
            },
    {
        if star < self.stars.len() {
            self.stars[star].system_radius
        } else {
            0
        }
    }

    /// Body radius of star `star`, in pixels; 0 where there is no such star.
    pub fn star_radius(&self, star: usize) -> (radius: u32)
        ensures
            radius == if star < self@.stars.len() {
                self@.stars[star as int].radius
            } else {
                0
            },
    {
        if star < self.stars.len() {
            self.stars[star].radius
        } else {
            0
        }
    }

    /// Body radius of planet `planet`, in pixels; 0 where there is no such
    /// planet.
    pub fn planet_radius(&self, planet: usize) -> (radius: u32)
        ensures
            radius == if planet < self@.planets.len() {
                self@.planets[planet as int].radius
            } else {
                0
            },
    {
        if planet < self.planets.len() {
            self.planets[planet].radius
        } else {
            0
        }
    }

    /// Horizontal position of planet `planet`, in millionths of a pixel; 0
    /// where there is no such planet.
    pub fn planet_x(&self, planet: usize) -> (x: i64)
        ensures
            x == self@.planet_x(planet as int),
            -2 * SCALE * u32::MAX <= x <= 2 * SCALE * u32::MAX,
    {
        if planet < self.planets.len() && self.planets[planet].star < self.stars.len() {
            let body = self.planets[planet];
            let star = self.stars[body.star];
            let unit: i64 = cosine(body.q);
            let reach: i64 = body.distance as i64;
            assert(-SCALE * u32::MAX <= reach * unit <= SCALE * u32::MAX) by (nonlinear_arith)
                requires
                    0 <= reach <= u32::MAX,
                    -SCALE <= unit <= SCALE,
            ;
            star.x as i64 * SCALE + reach * unit
        } else {
            0
        }
    }

    /// Vertical position of planet `planet`, in millionths of a pixel; 0 where
    /// there is no such planet.
    pub fn planet_y(&self, planet: usize) -> (y: i64)
        ensures
            y == self@.planet_y(planet as int),
            -2 * SCALE * u32::MAX <= y <= 2 * SCALE * u32::MAX,
    {
        if planet < self.planets.len() && self.planets[planet].star < self.stars.len() {
            let body = self.planets[planet];
            let star = self.stars[body.star];
            let unit: i64 = sine(body.q);
            let reach: i64 = body.distance as i64;
            assert(-SCALE * u32::MAX <= reach * unit <= SCALE * u32::MAX) by (nonlinear_arith)
                requires
                    0 <= reach <= u32::MAX,
                    -SCALE <= unit <= SCALE,
            ;
            star.y as i64 * SCALE + reach * unit
        } else {
            0
        }
    }
}

/// A planet whose orbit lies inside the window is itself inside the window,
/// whatever its phase.
pub proof fn lemma_planet_in_window(star: Star, planet: Planet, width: u32, height: u32)
    requires
        planet.orbit_inside(star, width, height),
    ensures
        in_window(planet.x(star), planet.y(star), width as int, height as int),
{
    let d = planet.distance as int;
    let c = cosine_of(planet.q as int);
    let s = sine_of(planet.q as int);
    lemma_unit_vector(planet.q as int);
    assert(-d * SCALE <= d * c <= d * SCALE && -d * SCALE <= d * s <= d * SCALE)
        by (nonlinear_arith)
        requires
            0 <= d,
            -SCALE <= c <= SCALE,
            -SCALE <= s <= SCALE,
    ;
    assert(star.x * SCALE - d * SCALE == (star.x - d) * SCALE && star.x * SCALE + d * SCALE == (
    star.x + d) * SCALE && star.y * SCALE - d * SCALE == (star.y - d) * SCALE && star.y * SCALE + d
        * SCALE == (star.y + d) * SCALE) by (nonlinear_arith);
    assert((star.x + d) * SCALE <= width * SCALE && (star.y + d) * SCALE <= height * SCALE && 0 <= (
    star.x - d) * SCALE && 0 <= (star.y - d) * SCALE) by (nonlinear_arith)
        requires
            d <= star.x,
            star.x + d <= width,
            d <= star.y,
            star.y + d <= height,
    ;
}

/// A planet is as far from its star as its orbit says, whatever its phase:
/// the offset of the planet from the star is its distance times a vector of
/// length `SCALE`, rounded towards the star. In millionths of a pixel, the
/// squared offset never exceeds the squared distance and falls short of it by
/// less than two millionths of it.
pub proof fn lemma_planet_on_orbit(star: Star, planet: Planet)
    ensures
        ({
            let dx = planet.x(star) - star.x * SCALE;
            let dy = planet.y(star) - star.y * SCALE;
            let d = planet.distance as int;
            &&& dx * dx + dy * dy <= (d * d) * (SCALE * SCALE)
            &&& dx * dx + dy * dy >= (d * d) * (SCALE * SCALE - 2 * SCALE)
            &&& d > 0 ==> dx * dx + dy * dy > (d * d) * (SCALE * SCALE - 2 * SCALE)
        }),
{
    let d = planet.distance as int;
    let c = cosine_of(planet.q as int);
    let s = sine_of(planet.q as int);
    let dx = planet.x(star) - star.x * SCALE;
    let dy = planet.y(star) - star.y * SCALE;
    let norm = c * c + s * s;
    lemma_unit_vector(planet.q as int);
    assert(dx * dx + dy * dy == (d * d) * norm) by (nonlinear_arith)
        requires
            dx == d * c,
            dy == d * s,
            norm == c * c + s * s,
    ;
    assert((d * d) * norm <= (d * d) * (SCALE * SCALE) && (d * d) * norm >= (d * d) * (SCALE
        * SCALE - 2 * SCALE) && (d > 0 ==> (d * d) * norm > (d * d) * (SCALE * SCALE - 2 * SCALE)))
        by (nonlinear_arith)
        requires
            d >= 0,
            SCALE * SCALE - 2 * SCALE < norm <= SCALE * SCALE,
    ;
}

/// In a valid placement any two different stars keep their systems apart and
/// inside the window, and any two different planets of one star keep their
/// orbits apart, in whatever order they are named; every planet keeps clear
/// of its star and inside its star's system.
pub proof fn lemma_valid_placement(view: UniverseView, i: int, j: int, a: int, b: int)
    requires
        view.placement_valid(),
        0 <= i < view.stars.len(),
        0 <= j < view.stars.len(),
        0 <= a < view.planets.len(),
        0 <= b < view.planets.len(),
    ensures
        i != j ==> !view.stars[i].overlaps(view.stars[j]),
        view.stars[i].inside(view.width, view.height),
        view.planets[a].star < view.stars.len(),
        view.planets[a].in_annulus(view.star_of(a)),
        view.planets[a].orbit_inside(view.star_of(a), view.width, view.height),
        a != b && view.planets[a].star == view.planets[b].star ==> !view.planets[a].collides(
            view.planets[b],
        ),
{
    let first = view.stars[i];
    let second = view.stars[j];
    lemma_overlap_symmetric(
        first.x as int,
        first.y as int,
        first.system_radius as int,
        second.x as int,
        second.y as int,
        second.system_radius as int,
    );
    if a < b {
        assert(view.planets[a].star == view.planets[b].star ==> !view.planets[a].collides(
            view.planets[b],
        ));
    } else if b < a {
        assert(view.planets[b].star == view.planets[a].star ==> !view.planets[b].collides(
            view.planets[a],
        ));
    }
}

/// Planets that stay on their orbits with a phase inside a full turn stay
/// as a consistent universe wants them, whatever else changes but the window
/// and the stars.
pub proof fn lemma_planets_stay_ok(before: UniverseView, after: UniverseView)
    requires
        forall|p: int| 0 <= p < before.planets.len() ==> #[trigger] before.planet_ok(p),
        after.width == before.width,
        after.height == before.height,
        after.stars == before.stars,
        after.planets.len() == before.planets.len(),
        forall|p: int|
            0 <= p < after.planets.len() ==> (#[trigger] after.planets[p]) == before.planets[p] || (
            after.planets[p].star == before.planets[p].star && after.planets[p].distance
                == before.planets[p].distance && after.planets[p].q < FULL_TURN),
    ensures
        forall|p: int| 0 <= p < after.planets.len() ==> #[trigger] after.planet_ok(p),
{
    assert forall|p: int| 0 <= p < after.planets.len() implies #[trigger] after.planet_ok(p) by {
        assert(before.planet_ok(p));
        assert(after.planets[p] == before.planets[p] || after.planets[p].q < FULL_TURN);
    }
}

} // verus!
