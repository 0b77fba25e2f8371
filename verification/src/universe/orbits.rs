//! Setting the planets in motion and seating the packet; one whole round of
//! generation.
use vstd::prelude::*;
use crate::packet::{packet_speed, Packet};
use crate::params::{
    DEGREE,
    DQ_STEP,
    FULL_TURN,
    MAX_NUM_PLANETS,
    MAX_NUM_STARS,
    MAX_PLANET_DQ,
    MAX_PLANET_RADIUS,
    MIN_NUM_PLANETS,
    MIN_NUM_STARS,
    MIN_PLANET_DQ,
    MIN_PLANET_RADIUS,
    MIN_STAR_SYSTEM_RADIUS,
};
use crate::random::{draw, drawable, RandomSource};
use crate::universe::placement::planets_of;
use crate::universe::{lemma_planets_stay_ok, Planet, Universe, UniverseView};

verus! {

impl Planet {
    /// The two planets orbit the same star at the same distance and have the
    /// same size.
    pub open spec fn same_orbit(self, other: Planet) -> bool {
        self.star == other.star && self.radius == other.radius && self.distance == other.distance
    }

    /// The planet set in motion by three numbers: at `degrees` whole degrees,
    /// with a speed of `steps` speed steps, forwards if `coin` is odd.
    pub open spec fn in_motion(self, degrees: u32, steps: u32, coin: u32) -> Planet {
        Planet {
            q: (degrees * DEGREE) as u32,
            dq: (steps * DQ_STEP) as u32,
            direction: coin % 2 == 1,
            ..self
        }
    }

    /// Sets the planet in motion: at `degrees` whole degrees, with a speed of
    /// `steps` speed steps, forwards if `coin` is odd and backwards if it is
    /// even. The orbit stays as it is.
    pub fn set_in_motion(self, degrees: u32, steps: u32, coin: u32) -> (planet: Planet)
        requires
            degrees * DEGREE < FULL_TURN,
            steps * DQ_STEP <= u32::MAX,
        ensures
            planet == self.in_motion(degrees, steps, coin),
            planet.same_orbit(self),
            planet.q < FULL_TURN,
    {
        Planet { q: degrees * DEGREE, dq: steps * DQ_STEP, direction: coin % 2 == 1, ..self }
    }

    /// The planet is `before`, set in motion by three numbers that the
    /// generation can draw: degrees from `[0, 359)`, speed steps from
    /// `[MIN_PLANET_DQ, MAX_PLANET_DQ)` and a coin from `[0, 100)`.
    pub open spec fn set_off_from(self, before: Planet) -> bool {
        exists|degrees: u32, steps: u32, coin: u32|
            drawable(0, 359, degrees) && drawable(MIN_PLANET_DQ, MAX_PLANET_DQ, steps) && drawable(
                0,
                100,
                coin,
            ) && self == #[trigger] before.in_motion(degrees, steps, coin)
    }

    /// The phase is a whole number of degrees and the speed a whole number of
    /// speed steps, both from the ranges that the generation draws from.
    pub open spec fn timed(self) -> bool {
        &&& self.q % DEGREE == 0
        &&& self.q < 359 * DEGREE
        &&& self.dq % DQ_STEP == 0
        &&& MIN_PLANET_DQ * DQ_STEP <= self.dq < MAX_PLANET_DQ * DQ_STEP
    }
}

/// Two lists hold the same planets on the same orbits; only phase, speed and
/// direction may differ.
pub open spec fn same_orbits(before: Seq<Planet>, after: Seq<Planet>) -> bool {
    &&& before.len() == after.len()
    &&& forall|p: int| 0 <= p < before.len() ==> (#[trigger] before[p]).same_orbit(after[p])
}

/// How many planets a star has depends on the orbits alone.
pub proof fn lemma_same_orbits_count(before: Seq<Planet>, after: Seq<Planet>, star: int)
    requires
        same_orbits(before, after),
    ensures
        planets_of(before, star) == planets_of(after, star),
    decreases before.len(),
{
    if before.len() > 0 {
        lemma_same_orbits_count(before.drop_last(), after.drop_last(), star);
    }
}

impl UniverseView {
    /// The same universe with the packet bound to `source`, the way it will
    /// go set: from `source` to `destination` and back.
    pub open spec fn seated(self, source: usize, destination: usize) -> UniverseView {
        UniverseView { source, destination, packet: self.bound_to(source as int), ..self }
    }

    /// The packet as it is when planet `planet` has just taken it: aimed
    /// along the planet's phase, turning the planet's way.
    pub open spec fn bound_to(self, planet: int) -> Packet {
        Packet::Bound {
            planet: planet as usize,
            q: self.planets[planet].q,
            dq: packet_speed(self.planets[planet].dq as int) as u32,
            direction: self.planets[planet].direction,
        }
    }

    /// Position of planet `planet` along the longer side of the window.
    pub open spec fn along(self, planet: int) -> int {
        if self.width > self.height {
            self.planet_x(planet)
        } else {
            self.planet_y(planet)
        }
    }

    /// No planet lies lower along the longer side than `planet`, and none
    /// before it in the list lies as low.
    pub open spec fn first_lowest(self, planet: int) -> bool {
        &&& 0 <= planet < self.planets.len()
        &&& forall|p: int|
            0 <= p < self.planets.len() ==> #[trigger] self.along(p) >= self.along(planet)
        &&& forall|p: int| 0 <= p < planet ==> #[trigger] self.along(p) > self.along(planet)
    }

    /// No planet lies higher along the longer side than `planet`, and none
    /// before it in the list lies as high.
    pub open spec fn first_highest(self, planet: int) -> bool {
        &&& 0 <= planet < self.planets.len()
        &&& forall|p: int|
            0 <= p < self.planets.len() ==> #[trigger] self.along(p) <= self.along(planet)
        &&& forall|p: int| 0 <= p < planet ==> #[trigger] self.along(p) < self.along(planet)
    }

    /// Every planet has a phase and a speed as the generation draws them.
    pub open spec fn planets_timed(self) -> bool {
        forall|p: int| 0 <= p < self.planets.len() ==> (#[trigger] self.planets[p]).timed()
    }

    /// The packet sits on the source, which is the first of the lowest
    /// planets along the longer side of the window; the destination is the
    /// first of the highest.
    pub open spec fn packet_seated(self) -> bool {
        &&& self.first_lowest(self.source as int)
        &&& self.first_highest(self.destination as int)
        &&& self.packet == self.bound_to(self.source as int)
    }

    /// What holds of a universe that has just been generated.
    pub open spec fn generated(self) -> bool {
        &&& self.placement_valid()
        &&& MIN_NUM_STARS <= self.stars.len() < MAX_NUM_STARS
        &&& self.stars_sized()
        &&& self.planets_sized()
        &&& self.planets_sorted()
        &&& self.stars_populated()
        &&& self.planets_timed()
        &&& self.packet_seated()
        &&& !self.reached
    }
}

/// Where the source and the destination are one planet, no planet lies
/// lower or higher than it along the longer side: all lie level.
pub proof fn lemma_single_extreme(view: UniverseView, planet: int, other: int)
    requires
        view.first_lowest(planet),
        view.first_highest(planet),
        0 <= other < view.planets.len(),
    ensures
        view.along(other) == view.along(planet),
{
}

/// What the placement keeps true of the planets depends on their orbits
/// alone, not on where they stand on them.
pub proof fn lemma_same_orbits_placed(before: UniverseView, after: UniverseView)
    requires
        before.stars == after.stars,
        same_orbits(before.planets, after.planets),
    ensures
        before.planets_in_annulus() ==> after.planets_in_annulus(),
        before.orbits_apart() ==> after.orbits_apart(),
        before.planets_sized() ==> after.planets_sized(),
        before.planets_sorted() ==> after.planets_sorted(),
        before.stars_populated() ==> after.stars_populated(),
{
    if before.planets_in_annulus() {
        assert forall|p: int| 0 <= p < after.planets.len() implies (
        #[trigger] after.planets[p]).star < after.stars.len() && after.planets[p].in_annulus(
            after.star_of(p),
        ) by {
            assert(before.planets[p].same_orbit(after.planets[p]));
        }
    }
    if before.orbits_apart() {
        assert forall|a: int, b: int|
            0 <= a < b < after.planets.len() && (#[trigger] after.planets[a]).star == (
            #[trigger] after.planets[b]).star implies !after.planets[a].collides(
            after.planets[b],
        ) by {
            assert(before.planets[a].same_orbit(after.planets[a]));
            assert(before.planets[b].same_orbit(after.planets[b]));
        }
    }
    if before.planets_sized() {
        assert forall|p: int| 0 <= p < after.planets.len() implies MIN_PLANET_RADIUS
            <= (#[trigger] after.planets[p]).radius < MAX_PLANET_RADIUS by {
            assert(before.planets[p].same_orbit(after.planets[p]));
        }
    }
    if before.planets_sorted() {
        assert forall|a: int, b: int| 0 <= a < b < after.planets.len() implies (
        #[trigger] after.planets[a]).star <= (#[trigger] after.planets[b]).star by {
            assert(before.planets[a].same_orbit(after.planets[a]));
            assert(before.planets[b].same_orbit(after.planets[b]));
        }
    }
    if before.stars_populated() {
        assert forall|s: int| 0 <= s < after.stars.len() implies MIN_NUM_PLANETS
            <= #[trigger] planets_of(after.planets, s) < MAX_NUM_PLANETS by {
            lemma_same_orbits_count(before.planets, after.planets, s);
        }
    }
}

impl Universe {
    /// Gives every planet a phase, a speed and a direction, drawn in this
    /// order planet by planet: a whole number of degrees from `[0, 359)`, a
    /// number of speed steps from `[MIN_PLANET_DQ, MAX_PLANET_DQ)`, and a
    /// number from `[0, 100)` that turns the planet forwards if it is odd.
    /// The orbits stay as they are.
    pub fn generate_planet_angles<R: RandomSource>(&mut self, rng: &mut R)
        requires
            old(self).wf(),
        ensures
            final(self).wf(),
            final(self)@ == old(self)@.with_planets(final(self)@.planets),
            final(self)@.planets.len() == old(self)@.planets.len(),
            forall|p: int|
                0 <= p < final(self)@.planets.len() ==> (
                #[trigger] final(self)@.planets[p]).set_off_from(old(self)@.planets[p]),
            same_orbits(old(self)@.planets, final(self)@.planets),
            final(self)@.planets_timed(),
    {
        let mut planet: usize = 0;
        while planet < self.planets.len()
            invariant
                planet <= self@.planets.len(),
                self.wf(),
                self@ == old(self)@.with_planets(self@.planets),
                same_orbits(old(self)@.planets, self@.planets),
                forall|p: int| 0 <= p < planet ==> (#[trigger] self@.planets[p]).timed(),
                forall|p: int|
                    0 <= p < planet ==> (#[trigger] self@.planets[p]).set_off_from(
                        old(self)@.planets[p],
                    ),
                forall|p: int|
                    planet <= p < self@.planets.len() ==> #[trigger] self@.planets[p] == old(
                        self,
                    )@.planets[p],
            decreases self.planets.len() - planet,
        {
            let ghost before = self@;
            let degrees: u32 = draw(rng, 0, 359);
            let steps: u32 = draw(rng, MIN_PLANET_DQ, MAX_PLANET_DQ);
            let coin: u32 = draw(rng, 0, 100);
            let spun = self.planets[planet].set_in_motion(degrees, steps, coin);
            self.planets.set(planet, spun);
            proof {
                lemma_planets_stay_ok(before, self@);
            }
            planet += 1;
        }
    }

    /// Position of planet `planet` along the longer side of the window.
    fn along(&self, planet: usize) -> (at: i64)
        ensures
            at == self@.along(planet as int),
    {
        if self.width > self.height {
            self.planet_x(planet)
        } else {
            self.planet_y(planet)
        }
    }

    /// Chooses the way the packet has to go and seats it on the source. Along
    /// the longer side of the window, the source is the first of the lowest
    /// planets and the destination the first of the highest.
    pub fn generate_packet(&mut self)
        requires
            old(self).wf(),
            old(self)@.planets.len() > 0,
        ensures
            final(self).wf(),
            final(self)@ == old(self)@.seated(final(self)@.source, final(self)@.destination),
            final(self)@.packet_seated(),
    {
        let mut source: usize = 0;
        let mut destination: usize = 0;
        let mut min: i64 = self.along(0);
        let mut max: i64 = min;
        let ghost view = self@;
        let mut planet: usize = 0;
        while planet < self.planets.len()
            invariant
                view == self@,
                planet <= view.planets.len(),
                view.planets.len() > 0,
                source < view.planets.len(),
                destination < view.planets.len(),
                source == 0 || source < planet,
                destination == 0 || destination < planet,
                min == view.along(source as int),
                max == view.along(destination as int),
                min == view.along(0) || planet > 0,
                min <= view.along(0) <= max,
                forall|p: int| 0 <= p < planet ==> #[trigger] view.along(p) >= min,
                forall|p: int| 0 <= p < source ==> #[trigger] view.along(p) > min,
                forall|p: int| 0 <= p < planet ==> #[trigger] view.along(p) <= max,
                forall|p: int| 0 <= p < destination ==> #[trigger] view.along(p) < max,
            decreases self.planets.len() - planet,
        {
            let at: i64 = self.along(planet);
            if at < min {
                min = at;
                source = planet;
            } else if at > max {
                max = at;
                destination = planet;
            }
            planet += 1;
        }
        let body = self.planets[source];
        self.packet_source = source;
        self.packet_destination = destination;
        self.packet = Packet::set_bound(source, body.q, body.dq, body.direction);
        proof {
            let after = self@;
            assert(view.planet_ok(source as int));
            lemma_planets_stay_ok(view, after);
            assert forall|p: int| 0 <= p < after.planets.len() implies #[trigger] after.along(p)
                >= after.along(source as int) by {
                assert(view.along(p) >= min);
            }
            assert forall|p: int| 0 <= p < source implies #[trigger] after.along(p) > after.along(
                source as int,
            ) by {
                assert(view.along(p) > min);
            }
            assert forall|p: int| 0 <= p < after.planets.len() implies #[trigger] after.along(p)
                <= after.along(destination as int) by {
                assert(view.along(p) <= max);
            }
            assert forall|p: int| 0 <= p < destination implies #[trigger] after.along(p)
                < after.along(destination as int) by {
                assert(view.along(p) < max);
            }
        }
    }

    /// One round of generation: the window is emptied, then come stars, then
    /// planets, then their motion, then the packet.
    ///
    /// On success the universe is as `generated` describes it. On failure
    /// (a star or a planet found no place in all its tries) the window is
    /// left empty, and the caller may ask for another round. A window too
    /// small for a star system fails every round.
    pub fn generate<R: RandomSource>(&mut self, rng: &mut R) -> (done: bool)
        ensures
            final(self).wf(),
            final(self)@.width == old(self)@.width,
            final(self)@.height == old(self)@.height,
            final(self)@.score == old(self)@.score,
            done ==> final(self)@.generated(),
            !done ==> final(self)@ == old(self)@.cleared(),
            done ==> old(self)@.width >= 2 * MIN_STAR_SYSTEM_RADIUS && old(self)@.height
                >= 2 * MIN_STAR_SYSTEM_RADIUS,
    {
        self.reset();
        if !self.generate_stars(rng) || !self.generate_planet_positions(rng) {
            self.reset();
            return false;
        }
        let ghost placed = self@;
        assert(placed.planets_since(0) =~= placed.planets);
        assert(planets_of(placed.planets, 0) >= 1);
        self.generate_planet_angles(rng);
        self.generate_packet();
        proof {
            lemma_same_orbits_placed(placed, self@);
        }
        true
    }

    /// A universe in a window of `width` by `height` pixels, after one round
    /// of generation. Where the round failed the window is empty, and
    /// `generate` may be asked again.
    pub fn new<R: RandomSource>(width: u32, height: u32, rng: &mut R) -> (universe: Universe)
        ensures
            universe.wf(),
            universe@.width == width,
            universe@.height == height,
            universe@.score == 0,
            universe@.generated() || universe@.blank(),
            width < 2 * MIN_STAR_SYSTEM_RADIUS || height < 2
                * MIN_STAR_SYSTEM_RADIUS ==> universe@.blank(),
    {
        let mut universe = Universe::empty(width, height);
        universe.generate(rng);
        universe
    }
}

} // verus!
