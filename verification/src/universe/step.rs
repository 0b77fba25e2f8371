//! One tick of the universe.
use vstd::prelude::*;
use crate::geometry::{closer_than, within_reach};
use crate::packet::{in_window, packet_speed, ticked, turn, turned, Packet};
use crate::params::{
    ENDPOINT_RING,
    FULL_TURN,
    HOLDER_RING,
    PACKET_RADIUS,
    PLANET_ACTIVATE_RANGE,
    SCALE,
};
use crate::random::RandomSource;
use crate::universe::flight::lemma_planets_in_window;
use crate::universe::orbits::{lemma_same_orbits_placed, same_orbits};
use crate::universe::{lemma_planets_stay_ok, Planet, Universe, UniverseView};

verus! {

impl Planet {
    /// The planet one tick later: further along its orbit.
    pub open spec fn moved(self) -> Planet {
        Planet { q: turned(self.q as int, self.dq as int, self.direction) as u32, ..self }
    }

    /// How close the centre of a packet has to come for the planet to
    /// capture it, in millionths of a pixel.
    pub open spec fn reach(self) -> int {
        (self.radius * PLANET_ACTIVATE_RANGE + PACKET_RADIUS) * SCALE
    }
}

impl UniverseView {
    /// The planets one tick later.
    pub open spec fn moved_planets(self) -> Seq<Planet> {
        Seq::new(self.planets.len(), |p: int| self.planets[p].moved())
    }

    /// The universe after the planets and the packet have moved. A packet
    /// that would leave the window is put back on the source instead, and
    /// what it had reached of its trip is lost.
    pub open spec fn moved(self) -> UniverseView {
        let turned = self.with_planets(self.moved_planets());
        let next = ticked(self.packet, self.width, self.height);
        if next.0 {
            UniverseView { packet: next.1, ..turned }
        } else {
            UniverseView { packet: turned.bound_to(self.source as int), reached: false, ..turned }
        }
    }

    /// Planet `planet` captures a packet at `(x, y)` that left planet `last`.
    pub open spec fn captures(self, planet: int, x: int, y: int, last: int) -> bool {
        planet != last && within_reach(
            x,
            y,
            self.planet_x(planet),
            self.planet_y(planet),
            self.planets[planet].reach(),
        )
    }

    /// The first planet from `from` on that captures a packet at `(x, y)`
    /// that left planet `last`.
    pub open spec fn first_capture(self, from: int, x: int, y: int, last: int) -> Option<int>
        decreases self.planets.len() - from,
    {
        if from < 0 || from >= self.planets.len() {
            None
        } else if self.captures(from, x, y, last) {
            Some(from)
        } else {
            self.first_capture(from + 1, x, y, last)
        }
    }

    /// The planet that captures the packet now: the first in the list that a
    /// free packet is within reach of, but for the one it left.
    pub open spec fn capturing(self) -> Option<int> {
        match self.packet {
            Packet::Bound { .. } => None,
            Packet::Free { x, y, last_planet, .. } => self.first_capture(
                0,
                x as int,
                y as int,
                last_planet as int,
            ),
        }
    }

    /// The universe after the capture, if there is one: the packet rides the
    /// capturing planet, and the destination counts as reached once it has
    /// captured the packet.
    pub open spec fn captured(self) -> UniverseView {
        match self.capturing() {
            None => self,
            Some(planet) => UniverseView {
                packet: self.bound_to(planet),
                reached: self.reached || planet == self.destination,
                ..self
            },
        }
    }

    /// The capture completes a round trip: the source takes the packet back
    /// after the destination has had it.
    pub open spec fn completes_trip(self) -> bool {
        match self.capturing() {
            None => false,
            Some(planet) => planet == self.source && (self.reached || planet == self.destination),
        }
    }

    /// The universe one tick later, as long as no round trip is completed.
    pub open spec fn stepped(self) -> UniverseView {
        self.moved().captured()
    }

    /// This tick completes a round trip.
    pub open spec fn scores(self) -> bool {
        self.moved().completes_trip()
    }
}

/// The pixel that a position in millionths of a pixel falls into.
pub open spec fn pixel(position: int) -> u32 {
    (position / (SCALE as int)) as u32
}

/// `tenths` tenths of `radius`, rounded down; no more than a `u32` holds.
pub open spec fn ring(radius: u32, tenths: u32) -> u32 {
    if radius * tenths / 10 > u32::MAX {
        u32::MAX
    } else {
        (radius * tenths / 10) as u32
    }
}

impl UniverseView {
    /// What a frame says of the packet. For a bound packet: the line from
    /// the planet that holds it to where its flight would end, then the tag
    /// 1 and the ring around that planet. For a free packet: the tag 0 and
    /// the packet's disc.
    pub open spec fn packet_block(self) -> Seq<u32> {
        match self.packet {
            Packet::Bound { planet, .. } => seq![
                pixel(self.planet_x(planet as int)),
                pixel(self.planet_y(planet as int)),
                pixel(self.packet_end_x()),
                pixel(self.packet_end_y()),
                1u32,
                pixel(self.planet_x(planet as int)),
                pixel(self.planet_y(planet as int)),
                ring(self.planets[planet as int].radius, HOLDER_RING),
            ],
            Packet::Free { x, y, .. } => seq![0u32, pixel(x as int), pixel(y as int), PACKET_RADIUS],
        }
    }

    /// What a frame says of the way the packet has to go: the tag 2, the
    /// ring around the destination, the ring around the source.
    pub open spec fn endpoint_block(self) -> Seq<u32> {
        seq![
            2u32,
            pixel(self.planet_x(self.destination as int)),
            pixel(self.planet_y(self.destination as int)),
            ring(self.planets[self.destination as int].radius, ENDPOINT_RING),
            pixel(self.planet_x(self.source as int)),
            pixel(self.planet_y(self.source as int)),
            ring(self.planets[self.source as int].radius, ENDPOINT_RING),
        ]
    }

    /// The `k`-th number of the list of stars: centre and body radius of one
    /// star after the other.
    pub open spec fn star_entry(self, k: int) -> u32 {
        let star = self.stars[k / 3];
        if k % 3 == 0 {
            star.x
        } else if k % 3 == 1 {
            star.y
        } else {
            star.radius
        }
    }

    /// The `k`-th number of the list of planets: position and body radius of
    /// one planet after the other.
    pub open spec fn planet_entry(self, k: int) -> u32 {
        if k % 3 == 0 {
            pixel(self.planet_x(k / 3))
        } else if k % 3 == 1 {
            pixel(self.planet_y(k / 3))
        } else {
            self.planets[k / 3].radius
        }
    }

    /// The list of stars of a frame.
    pub open spec fn star_block(self) -> Seq<u32> {
        Seq::new(3 * self.stars.len(), |k: int| self.star_entry(k))
    }

    /// The list of planets of a frame.
    pub open spec fn planet_block(self) -> Seq<u32> {
        Seq::new(3 * self.planets.len(), |k: int| self.planet_entry(k))
    }

    /// The frame: everything a renderer needs to draw the universe. In this
    /// order: the tag 0 and the score; the packet; the way it has to go; the
    /// number of stars and the stars; the number of planets and the planets.
    /// Positions are in whole pixels.
    pub open spec fn frame(self) -> Seq<u32> {
        seq![0u32, self.score] + self.packet_block() + self.endpoint_block() + seq![
            self.stars.len() as u32,
        ] + self.star_block() + seq![self.planets.len() as u32] + self.planet_block()
    }
}

/// A bound packet stays on its planet: a tick only turns it, by its own
/// speed. It becomes free by `free_packet` alone.
pub proof fn lemma_bound_packet_rides_on(view: UniverseView)
    requires
        view.packet is Bound,
    ensures
        !view.scores(),
        view.stepped().reached == view.reached,
        view.stepped().packet == (Packet::Bound {
            planet: view.packet->planet,
            q: turned(view.packet->q as int, view.packet->dq as int, view.packet->direction) as u32,
            dq: view.packet->dq,
            direction: view.packet->direction,
        }),
{
}

/// If any planet captures a packet, then the first planet that `first_capture`
/// names is one that does, and none before it in the list does.
pub proof fn lemma_first_capture(view: UniverseView, from: int, x: int, y: int, last: int)
    requires
        0 <= from,
    ensures
        match view.first_capture(from, x, y, last) {
            Some(planet) => from <= planet < view.planets.len() && view.captures(planet, x, y, last)
                && forall|p: int| from <= p < planet ==> !view.captures(p, x, y, last),
            None => forall|p: int| from <= p < view.planets.len() ==> !view.captures(p, x, y, last),
        },
    decreases view.planets.len() - from,
{
    if from < view.planets.len() && !view.captures(from, x, y, last) {
        lemma_first_capture(view, from + 1, x, y, last);
    }
}

/// A free packet that comes within reach of a planet other than the one it
/// left does not stay free: after the tick it rides the first such planet of
/// the list, unless that completes a round trip.
pub proof fn lemma_packet_in_reach_is_captured(view: UniverseView, planet: int)
    requires
        view.wf(),
        0 <= planet < view.planets.len(),
        view.moved().packet is Free,
        view.moved().captures(
            planet,
            view.moved().packet->x as int,
            view.moved().packet->y as int,
            view.moved().packet->last_planet as int,
        ),
    ensures
        view.stepped().packet is Bound,
        view.stepped().packet->planet <= planet,
        view.stepped().packet->planet != view.moved().packet->last_planet,
{
    let moved = view.moved();
    lemma_first_capture(
        moved,
        0,
        moved.packet->x as int,
        moved.packet->y as int,
        moved.packet->last_planet as int,
    );
}

/// A free packet that would leave the window is back on the source after the
/// tick, aimed along the source's new phase; what it had reached of its trip
/// is lost, and the tick completes no round trip.
pub proof fn lemma_missed_packet_returns(view: UniverseView)
    requires
        view.wf(),
        view.planets.len() > 0,
        view.packet is Free,
        !in_window(
            view.packet->x + view.packet->dx,
            view.packet->y + view.packet->dy,
            view.width as int,
            view.height as int,
        ),
    ensures
        !view.scores(),
        !view.stepped().reached,
        view.stepped().packet == (Packet::Bound {
            planet: view.source,
            q: view.planets[view.source as int].moved().q,
            dq: packet_speed(view.planets[view.source as int].dq as int) as u32,
            direction: view.planets[view.source as int].direction,
        }),
{
}

/// A tick that completes no round trip leaves every star where it is and
/// every planet on its orbit.
pub proof fn lemma_step_keeps_orbits(view: UniverseView)
    ensures
        view.stepped().stars == view.stars,
        same_orbits(view.planets, view.stepped().planets),
        view.stepped().score == view.score,
        view.stepped().source == view.source,
        view.stepped().destination == view.destination,
{
}

/// A tick that completes no round trip turns every planet by its speed,
/// forwards or backwards, modulo a full turn: the phase stays inside the full
/// turn, and star, radius, distance, speed and direction stay as they are.
pub proof fn lemma_step_turns_planets(view: UniverseView, planet: int)
    requires
        0 <= planet < view.planets.len(),
    ensures
        view.stepped().planets.len() == view.planets.len(),
        view.stepped().planets[planet] == view.planets[planet].moved(),
        0 <= view.stepped().planets[planet].q < FULL_TURN,
        view.planets[planet].direction ==> view.stepped().planets[planet].q == (
        view.planets[planet].q + view.planets[planet].dq) % 3600,
        !view.planets[planet].direction && view.planets[planet].dq <= FULL_TURN
            ==> view.stepped().planets[planet].q == (view.planets[planet].q + (FULL_TURN
            - view.planets[planet].dq)) % 3600,
        view.stepped().planets[planet].star == view.planets[planet].star,
        view.stepped().planets[planet].radius == view.planets[planet].radius,
        view.stepped().planets[planet].distance == view.planets[planet].distance,
        view.stepped().planets[planet].dq == view.planets[planet].dq,
        view.stepped().planets[planet].direction == view.planets[planet].direction,
{
}

/// When the destination is the first planet to capture the free packet, and
/// it is not the source as well, the packet rides it after the tick, aimed
/// along the destination's new phase; the destination counts as reached, the
/// tick completes no round trip, and score, stars and orbits stay.
pub proof fn lemma_destination_takes_packet(view: UniverseView)
    requires
        view.wf(),
        view.source != view.destination,
        view.moved().capturing() == Some(view.destination as int),
    ensures
        !view.scores(),
        view.stepped().reached,
        view.stepped().score == view.score,
        view.stepped().stars == view.stars,
        same_orbits(view.planets, view.stepped().planets),
        view.destination < view.planets.len(),
        view.stepped().packet == (Packet::Bound {
            planet: view.destination,
            q: view.planets[view.destination as int].moved().q,
            dq: packet_speed(view.planets[view.destination as int].dq as int) as u32,
            direction: view.planets[view.destination as int].direction,
        }),
{
    let moved = view.moved();
    lemma_first_capture(
        moved,
        0,
        moved.packet->x as int,
        moved.packet->y as int,
        moved.packet->last_planet as int,
    );
    lemma_step_keeps_orbits(view);
}

impl Universe {
    /// Moves every planet along its orbit by one tick.
    fn move_planets(&mut self)
        requires
            old(self).wf(),
        ensures
            final(self).wf(),
            final(self)@ == old(self)@.with_planets(old(self)@.moved_planets()),
    {
        let mut planet: usize = 0;
        while planet < self.planets.len()
            invariant
                planet <= self@.planets.len(),
                self.wf(),
                self@ == old(self)@.with_planets(self@.planets),
                self@.planets.len() == old(self)@.planets.len(),
                forall|p: int| 0 <= p < planet ==> #[trigger] self@.planets[p] == old(self)@.planets[p].moved(),
                forall|p: int|
                    planet <= p < self@.planets.len() ==> #[trigger] self@.planets[p] == old(
                        self,
                    )@.planets[p],
            decreases self.planets.len() - planet,
        {
            let ghost before = self@;
            let body = self.planets[planet];
            let next = Planet { q: turn(body.q, body.dq, body.direction), ..body };
            self.planets.set(planet, next);
            proof {
                lemma_planets_stay_ok(before, self@);
            }
            planet += 1;
        }
        assert(self@.planets =~= old(self)@.moved_planets());
    }

    /// The packet as it is when planet `planet` has just taken it.
    fn bound_to(&self, planet: usize) -> (packet: Packet)
        requires
            planet < self@.planets.len(),
        ensures
            packet == self@.bound_to(planet as int),
    {
        let body = self.planets[planet];
        Packet::set_bound(planet, body.q, body.dq, body.direction)
    }

    /// Moves the packet by one tick; a packet that would leave the window
    /// goes back to the source.
    fn move_packet(&mut self)
        requires
            old(self).wf(),
            old(self)@.planets.len() > 0,
        ensures
            final(self).wf(),
            final(self)@.planets == old(self)@.planets,
            final(self)@ == ({
                let view = old(self)@;
                let next = ticked(view.packet, view.width, view.height);
                if next.0 {
                    UniverseView { packet: next.1, ..view }
                } else {
                    UniverseView { packet: view.bound_to(view.source as int), reached: false, ..view }
                }
            }),
    {
        let (inside, packet) = Packet::tick(self.packet, self.width, self.height);
        if !inside {
            self.packet_reached_destination = false;
            assert(old(self)@.planet_ok(old(self)@.source as int));
            self.packet = self.bound_to(self.packet_source);
        } else {
            self.packet = packet;
        }
        proof {
                lemma_planets_stay_ok(old(self)@, self@);
            }
    }

    /// The planet that captures the packet now, if any.
    fn capturing(&self) -> (hit: Option<usize>)
        requires
            self.wf(),
        ensures
            match hit {
                Some(planet) => self@.capturing() == Some(planet as int) && planet
                    < self@.planets.len(),
                None => self@.capturing().is_none(),
            },
    {
        match self.packet {
            Packet::Bound { .. } => None,
            Packet::Free { x, y, last_planet, .. } => {
                let range: u64 = PLANET_ACTIVATE_RANGE as u64;
                let scale: u64 = SCALE as u64;
                let mut planet: usize = 0;
                while planet < self.planets.len()
                    invariant
                        planet <= self@.planets.len(),
                        self.wf(),
                        self@.packet == (Packet::Free { x, y, last_planet, dx: self@.packet->dx, dy: self@.packet->dy }),
                        range == 3,
                        scale == 1_000_000,
                        self@.capturing() == self@.first_capture(
                            planet as int,
                            x as int,
                            y as int,
                            last_planet as int,
                        ),
                    decreases self.planets.len() - planet,
                {
                    let reach: u64 = (self.planets[planet].radius as u64 * range
                        + PACKET_RADIUS as u64) * scale;
                    let at_x: i64 = self.planet_x(planet);
                    let at_y: i64 = self.planet_y(planet);
                    proof {
                        lemma_planets_in_window(self@, planet as int);
                    }
                    if planet != last_planet && closer_than(x, y, at_x, at_y, reach as i64) {
                        return Some(planet);
                    }
                    planet += 1;
                }
                None
            },
        }
    }

    /// Lets the planet that captures the packet take it, and says whether
    /// that completes a round trip.
    fn capture(&mut self) -> (trip: bool)
        requires
            old(self).wf(),
        ensures
            final(self).wf(),
            final(self)@ == old(self)@.captured(),
            trip == old(self)@.completes_trip(),
    {
        match self.capturing() {
            None => false,
            Some(planet) => {
                assert(self@.planet_ok(planet as int));
                self.packet = self.bound_to(planet);
                if !self.packet_reached_destination && planet == self.packet_destination {
                    self.packet_reached_destination = true;
                }
                proof {
                lemma_planets_stay_ok(old(self)@, self@);
            }
                self.packet_reached_destination && planet == self.packet_source
            },
        }
    }

    /// The pixel that a position inside the window falls into.
    fn pixel_of(position: i64) -> (at: u32)
        requires
            0 <= position <= u32::MAX * SCALE,
        ensures
            at == pixel(position as int),
    {
        (position as u64 / 1_000_000) as u32
    }

    /// `tenths` tenths of `radius`, rounded down.
    fn ring_of(radius: u32, tenths: u32) -> (size: u32)
        ensures
            size == ring(radius, tenths),
    {
        let wide: u64 = radius as u64;
        let part: u64 = tenths as u64;
        assert(wide * part <= 0xffff_ffff * 0xffff_ffff) by (nonlinear_arith)
            requires
                wide <= 0xffff_ffff,
                part <= 0xffff_ffff,
        ;
        let size: u64 = wide * part / 10;
        if size > u32::MAX as u64 {
            u32::MAX
        } else {
            size as u32
        }
    }

    /// Pixel position of planet `planet`.
    fn planet_pixel(&self, planet: usize) -> (at: (u32, u32))
        requires
            self.wf(),
            planet < self@.planets.len(),
        ensures
            at.0 == pixel(self@.planet_x(planet as int)),
            at.1 == pixel(self@.planet_y(planet as int)),
    {
        proof {
            lemma_planets_in_window(self@, planet as int);
            assert(self@.width * SCALE <= u32::MAX * SCALE) by (nonlinear_arith)
                requires
                    self@.width <= u32::MAX,
            ;
            assert(self@.height * SCALE <= u32::MAX * SCALE) by (nonlinear_arith)
                requires
                    self@.height <= u32::MAX,
            ;
        }
        (Self::pixel_of(self.planet_x(planet)), Self::pixel_of(self.planet_y(planet)))
    }

    /// What a frame says of the packet.
    fn packet_block(&self) -> (block: Vec<u32>)
        requires
            self.wf(),
        ensures
            block@ == self@.packet_block(),
    {
        let mut block: Vec<u32> = Vec::new();
        proof {
            assert(self@.width * SCALE <= u32::MAX * SCALE) by (nonlinear_arith)
                requires
                    self@.width <= u32::MAX,
            ;
            assert(self@.height * SCALE <= u32::MAX * SCALE) by (nonlinear_arith)
                requires
                    self@.height <= u32::MAX,
            ;
        }
        match self.packet {
            Packet::Bound { planet, .. } => {
                let at = self.planet_pixel(planet);
                let end_x: u32 = Self::pixel_of(self.packet_end_x());
                let end_y: u32 = Self::pixel_of(self.packet_end_y());
                block.push(at.0);
                block.push(at.1);
                block.push(end_x);
                block.push(end_y);
                block.push(1);
                block.push(at.0);
                block.push(at.1);
                block.push(Self::ring_of(self.planets[planet].radius, HOLDER_RING));
            },
            Packet::Free { x, y, .. } => {
                block.push(0);
                block.push(Self::pixel_of(x));
                block.push(Self::pixel_of(y));
                block.push(PACKET_RADIUS);
            },
        }
        block
    }

    /// What a frame says of the way the packet has to go.
    fn endpoint_block(&self) -> (block: Vec<u32>)
        requires
            self.wf(),
            self@.planets.len() > 0,
        ensures
            block@ == self@.endpoint_block(),
    {
        let mut block: Vec<u32> = Vec::new();
        let destination = self.planet_pixel(self.packet_destination);
        let source = self.planet_pixel(self.packet_source);
        block.push(2);
        block.push(destination.0);
        block.push(destination.1);
        block.push(Self::ring_of(self.planets[self.packet_destination].radius, ENDPOINT_RING));
        block.push(source.0);
        block.push(source.1);
        block.push(Self::ring_of(self.planets[self.packet_source].radius, ENDPOINT_RING));
        block
    }

    /// The list of stars of a frame.
    fn star_block(&self) -> (block: Vec<u32>)
        ensures
            block@ == self@.star_block(),
    {
        let mut block: Vec<u32> = Vec::new();
        let mut star: usize = 0;
        while star < self.stars.len()
            invariant
                star <= self@.stars.len(),
                block@ =~= Seq::new(3 * star as nat, |k: int| self@.star_entry(k)),
            decreases self.stars.len() - star,
        {
            let body = self.stars[star];
            block.push(body.x);
            block.push(body.y);
            block.push(body.radius);
            star += 1;
        }
        block
    }

    /// The list of planets of a frame.
    fn planet_block(&self) -> (block: Vec<u32>)
        requires
            self.wf(),
        ensures
            block@ == self@.planet_block(),
    {
        let mut block: Vec<u32> = Vec::new();
        let mut planet: usize = 0;
        while planet < self.planets.len()
            invariant
                planet <= self@.planets.len(),
                self.wf(),
                block@ =~= Seq::new(3 * planet as nat, |k: int| self@.planet_entry(k)),
            decreases self.planets.len() - planet,
        {
            let at = self.planet_pixel(planet);
            block.push(at.0);
            block.push(at.1);
            block.push(self.planets[planet].radius);
            planet += 1;
        }
        block
    }

    /// The frame of the universe as it is: everything a renderer needs to
    /// draw it. An empty universe has no frame.
    pub fn frame(&self) -> (frame: Option<Vec<u32>>)
        requires
            self.wf(),
        ensures
            frame is Some == (self@.planets.len() > 0),
            frame matches Some(data) ==> data@ == self@.frame(),
    {
        if self.planets.len() == 0 {
            return None;
        }
        let mut data: Vec<u32> = Vec::new();
        data.push(0);
        data.push(self.score);
        let mut packet = self.packet_block();
        data.append(&mut packet);
        let mut endpoints = self.endpoint_block();
        data.append(&mut endpoints);
        data.push(self.stars.len() as u32);
        let mut stars = self.star_block();
        data.append(&mut stars);
        data.push(self.planets.len() as u32);
        let mut planets = self.planet_block();
        data.append(&mut planets);
        Some(data)
    }

    /// One tick: every planet moves along its orbit; the packet turns with
    /// its planet or flies on; a packet that would leave the window goes back
    /// to the source; a free packet within reach of a planet is captured by
    /// it. The result is the frame of the universe after the tick.
    ///
    /// When the source captures the packet after the destination has had it,
    /// the score goes up by one and one round of generation replaces the
    /// universe. Where that round fails the window is left empty and there is
    /// no frame: the caller asks `generate` again, then `frame`.
    ///
    /// An empty universe stays as it is. The score has to have room for one
    /// more only on a tick that completes a round trip.
    pub fn tick<R: RandomSource>(&mut self, rng: &mut R) -> (frame: Option<Vec<u32>>)
        requires
            old(self).wf(),
            old(self)@.planets.len() > 0 && old(self)@.scores() ==> old(self)@.score < u32::MAX,
        ensures
            final(self).wf(),
            old(self)@.planets.len() == 0 ==> final(self)@ == old(self)@,
            old(self)@.planets.len() > 0 && !old(self)@.scores() ==> final(self)@ == old(
                self,
            )@.stepped(),
            old(self)@.planets.len() > 0 && old(self)@.scores() ==> final(self)@.score == old(
                self,
            )@.score + 1 && final(self)@.width == old(self)@.width && final(self)@.height == old(
                self,
            )@.height && (final(self)@.generated() || final(self)@.blank()),
            frame is Some == (final(self)@.planets.len() > 0),
            frame matches Some(data) ==> data@ == final(self)@.frame(),
            old(self)@.placement_valid() ==> final(self)@.placement_valid(),
    {
        if self.planets.len() == 0 {
            return None;
        }
        self.move_planets();
        self.move_packet();
        let trip = self.capture();
        if trip {
            self.score += 1;
            self.generate(rng);
        } else {
            proof {
                lemma_step_keeps_orbits(old(self)@);
                lemma_same_orbits_placed(old(self)@, self@);
            }
        }
        self.frame()
    }
}

} // verus!
