//! Building a universe from given stars and planets, and checking one.
use vstd::prelude::*;
use crate::geometry::disc_fits;
use crate::packet::Packet;
use crate::params::{FULL_TURN, SCALE};
use crate::universe::{lemma_planets_stay_ok, Planet, Star, Universe, UniverseView};

verus! {

impl UniverseView {
    /// The same universe with another packet.
    pub open spec fn with_packet(self, packet: Packet) -> UniverseView {
        UniverseView { packet, ..self }
    }

    /// A universe made of the given stars and planets, at score 0, with the
    /// packet on `source` and `destination` still to visit.
    pub open spec fn assembled(
        width: u32,
        height: u32,
        stars: Seq<Star>,
        planets: Seq<Planet>,
        source: usize,
        destination: usize,
    ) -> UniverseView {
        UniverseView {
            width,
            height,
            score: 0,
            packet: Packet::Free { x: 0, y: 0, dx: 0, dy: 0, last_planet: 0 },
            source: 0,
            destination: 0,
            reached: false,
            stars,
            planets,
        }.seated(source, destination)
    }
}

impl Universe {
    /// Whether planet `planet` belongs to a star of this universe, with its
    /// orbit inside the window and its phase inside a full turn.
    fn planet_is_ok(&self, planet: usize) -> (ok: bool)
        requires
            planet < self@.planets.len(),
        ensures
            ok == self@.planet_ok(planet as int),
    {
        let body = self.planets[planet];
        if body.star >= self.stars.len() || body.q >= FULL_TURN {
            return false;
        }
        let sun = self.stars[body.star];
        disc_fits(self.width, self.height, sun.x, sun.y, body.distance)
    }

    /// Whether `packet` could be the packet of this universe: a bound packet
    /// rides one of the planets and is aimed inside a full turn, a free one
    /// is inside the window.
    pub fn packet_fits(&self, packet: Packet) -> (ok: bool)
        ensures
            ok == self@.with_packet(packet).packet_ok(),
    {
        match packet {
            Packet::Bound { planet, q, .. } => planet < self.planets.len() && q < FULL_TURN,
            Packet::Free { x, y, .. } => {
                let scale: i64 = SCALE;
                0 <= x && x <= self.width as i64 * scale && 0 <= y && y <= self.height as i64
                    * scale
            },
        }
    }

    /// Whether the universe is consistent. Every universe that `new`,
    /// `generate`, `from_parts` and `tick` hand out is.
    pub fn is_well_formed(&self) -> (ok: bool)
        ensures
            ok == self.wf(),
    {
        if self.stars.len() > u32::MAX as usize || self.planets.len() > u32::MAX as usize {
            return false;
        }
        if !(self.packet_source == 0 || self.packet_source < self.planets.len()) {
            return false;
        }
        if !(self.packet_destination == 0 || self.packet_destination < self.planets.len()) {
            return false;
        }
        if !self.packet_fits(self.packet) {
            return false;
        }
        let mut planet: usize = 0;
        while planet < self.planets.len()
            invariant
                planet <= self@.planets.len(),
                forall|p: int| 0 <= p < planet ==> #[trigger] self@.planet_ok(p),
            decreases self.planets.len() - planet,
        {
            if !self.planet_is_ok(planet) {
                return false;
            }
            planet += 1;
        }
        true
    }

    /// A universe made of the given stars and planets, at score 0, with the
    /// packet on planet `source` and planet `destination` still to visit.
    ///
    /// There is none if there is no planet, if `source` or `destination` is
    /// no planet, if a planet belongs to no star, has a phase of a full turn
    /// or more, or an orbit that leaves the window, or if there are more
    /// stars or planets than a frame can count.
    pub fn from_parts(
        width: u32,
        height: u32,
        stars: Vec<Star>,
        planets: Vec<Planet>,
        source: usize,
        destination: usize,
    ) -> (universe: Option<Universe>)
        ensures
            universe is Some == (source < planets@.len() && destination < planets@.len()
                && UniverseView::assembled(
                width,
                height,
                stars@,
                planets@,
                source,
                destination,
            ).wf()),
            universe matches Some(made) ==> made@ == UniverseView::assembled(
                width,
                height,
                stars@,
                planets@,
                source,
                destination,
            ),
    {
        if source >= planets.len() || destination >= planets.len() {
            return None;
        }
        let body = planets[source];
        let universe = Universe {
            width,
            height,
            score: 0,
            packet: Packet::set_bound(source, body.q, body.dq, body.direction),
            packet_source: source,
            packet_destination: destination,
            packet_reached_destination: false,
            stars,
            planets,
        };
        assert(universe@ == UniverseView::assembled(
            width,
            height,
            stars@,
            planets@,
            source,
            destination,
        ));
        if universe.is_well_formed() {
            Some(universe)
        } else {
            None
        }
    }

    /// Puts `packet` in the place of the packet, if it fits this universe;
    /// else nothing changes.
    pub fn set_packet(&mut self, packet: Packet) -> (ok: bool)
        requires
            old(self).wf(),
        ensures
            final(self).wf(),
            ok == old(self)@.with_packet(packet).packet_ok(),
            ok ==> final(self)@ == old(self)@.with_packet(packet),
            !ok ==> final(self)@ == old(self)@,
    {
        if !self.packet_fits(packet) {
            return false;
        }
        self.packet = packet;
        proof {
                lemma_planets_stay_ok(old(self)@, self@);
            }
        true
    }
}

} // verus!
