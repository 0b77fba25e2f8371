//! Placing stars and planets by drawing candidates and rejecting those that
//! do not fit.
use vstd::prelude::*;
use crate::geometry::{circles_overlap, disc_fits, disc_in_window, discs_overlap};
use crate::params::{
    MAX_NUM_PLANETS,
    MAX_NUM_STARS,
    MAX_PLANET_RADIUS,
    MAX_STAR_RADIUS,
    MAX_STAR_SYSTEM_RADIUS,
    MAX_TRIES,
    MIN_NUM_PLANETS,
    MIN_NUM_STARS,
    MIN_PLANET_RADIUS,
    MIN_STAR_RADIUS,
    MIN_STAR_SYSTEM_RADIUS,
    PLANET_ACTIVATE_RANGE,
};
use crate::random::{draw, drawable, RandomSource};
use crate::universe::{Planet, Star, Universe, UniverseView};

verus! {

impl UniverseView {
    /// A star system of radius `system_radius` around `(x, y)` lies inside
    /// the window and overlaps none of the systems that are there.
    pub open spec fn star_fits(self, x: u32, y: u32, system_radius: u32) -> bool {
        &&& disc_in_window(
            self.width as int,
            self.height as int,
            x as int,
            y as int,
            system_radius as int,
        )
        &&& forall|i: int|
            0 <= i < self.stars.len() ==> !discs_overlap(
                (#[trigger] self.stars[i]).x as int,
                self.stars[i].y as int,
                self.stars[i].system_radius as int,
                x as int,
                y as int,
                system_radius as int,
            )
    }

    /// Every star has a body radius and a system radius that the placement
    /// draws.
    pub open spec fn stars_sized(self) -> bool {
        forall|i: int|
            0 <= i < self.stars.len() ==> MIN_STAR_RADIUS <= (#[trigger] self.stars[i]).radius
                < MAX_STAR_RADIUS && MIN_STAR_SYSTEM_RADIUS <= self.stars[i].system_radius
                < MAX_STAR_SYSTEM_RADIUS
    }

    /// The same universe with other stars.
    pub open spec fn with_stars(self, stars: Seq<Star>) -> UniverseView {
        UniverseView { stars, ..self }
    }

    /// The same universe with other planets.
    pub open spec fn with_planets(self, planets: Seq<Planet>) -> UniverseView {
        UniverseView { planets, ..self }
    }

    /// A planet of radius `radius` can be added at `distance` from star
    /// `star`: its orbit is clear of the star, inside the star's system and
    /// inside the window, and clear of the orbits of the star's planets.
    pub open spec fn planet_fits(self, star: usize, radius: u32, distance: u32) -> bool {
        let candidate = Planet { star, radius, distance, q: 0, dq: 0, direction: false };
        &&& star < self.stars.len()
        &&& candidate.in_annulus(self.stars[star as int])
        &&& candidate.orbit_inside(self.stars[star as int], self.width, self.height)
        &&& forall|p: int|
            0 <= p < self.planets.len() && (#[trigger] self.planets[p]).star == star
                ==> !self.planets[p].collides(candidate)
    }

    /// One try of the placement adds `star` to this universe: its centre, its
    /// system radius and its body radius can be drawn from the ranges that
    /// the placement asks for, and its system fits.
    pub open spec fn takes_star(self, star: Star) -> bool {
        &&& drawable(0, self.width, star.x)
        &&& drawable(0, self.height, star.y)
        &&& drawable(MIN_STAR_SYSTEM_RADIUS, MAX_STAR_SYSTEM_RADIUS, star.system_radius)
        &&& drawable(MIN_STAR_RADIUS, MAX_STAR_RADIUS, star.radius)
        &&& self.star_fits(star.x, star.y, star.system_radius)
    }

    /// One try of the placement adds `planet` to this universe: its radius
    /// can be drawn from the range that the placement asks for, its distance
    /// from the orbit range that its star has for that radius, and its orbit
    /// fits. It stands still at phase 0 until it is set in motion.
    pub open spec fn takes_planet(self, planet: Planet) -> bool {
        &&& planet.star < self.stars.len()
        &&& planet.q == 0 && planet.dq == 0 && !planet.direction
        &&& drawable(MIN_PLANET_RADIUS, MAX_PLANET_RADIUS, planet.radius)
        &&& self.stars[planet.star as int].orbit_range_of(planet.radius) matches Some(range)
            && drawable(range.0, range.1, planet.distance)
        &&& self.planet_fits(planet.star, planet.radius, planet.distance)
    }

    /// The stars from `from` on were added one after the other: each was
    /// taken by the universe that held the stars before it.
    pub open spec fn stars_taken(self, from: int) -> bool {
        forall|i: int|
            from <= i < self.stars.len() ==> self.with_stars(self.stars.take(i)).takes_star(
                #[trigger] self.stars[i],
            )
    }

    /// The stars are those of `before`, in their places, and after them
    /// stars that were added one after the other.
    pub open spec fn holds_stars_after(self, before: Seq<Star>) -> bool {
        &&& before.len() <= self.stars.len()
        &&& self.stars.take(before.len() as int) == before
        &&& self.stars_taken(before.len() as int)
    }

    /// The planets from `from` on were added to star `star` one after the
    /// other: each was taken by the universe that held the planets before it.
    pub open spec fn planets_taken(self, from: int, star: usize) -> bool {
        forall|p: int|
            from <= p < self.planets.len() ==> (#[trigger] self.planets[p]).star == star
                && self.with_planets(self.planets.take(p)).takes_planet(self.planets[p])
    }

    /// The planets from `from` on were added one after the other, star by
    /// star in the order of the stars: each was taken by the universe that
    /// held the planets before it.
    pub open spec fn planets_taken_in_order(self, from: int) -> bool {
        &&& forall|p: int|
            from <= p < self.planets.len() ==> self.with_planets(
                self.planets.take(p),
            ).takes_planet(#[trigger] self.planets[p])
        &&& forall|a: int, b: int|
            from <= a < b < self.planets.len() ==> (#[trigger] self.planets[a]).star <= (
            #[trigger] self.planets[b]).star
    }

    /// The planets are those of `before`, in their places, and after them
    /// planets that were added one after the other, star by star.
    pub open spec fn holds_planets_after(self, before: Seq<Planet>) -> bool {
        &&& before.len() <= self.planets.len()
        &&& self.planets.take(before.len() as int) == before
        &&& self.planets_taken_in_order(before.len() as int)
    }

    /// The planets from `from` on.
    pub open spec fn planets_since(self, from: int) -> Seq<Planet> {
        self.planets.subrange(from, self.planets.len() as int)
    }

    /// Among the planets from `from` on, every star has as many as the
    /// placement draws for one star.
    pub open spec fn stars_populated_since(self, from: int) -> bool {
        forall|s: int|
            0 <= s < self.stars.len() ==> MIN_NUM_PLANETS <= #[trigger] planets_of(
                self.planets_since(from),
                s,
            ) < MAX_NUM_PLANETS
    }

    /// Every planet has a body radius that the placement draws.
    pub open spec fn planets_sized(self) -> bool {
        forall|p: int|
            0 <= p < self.planets.len() ==> MIN_PLANET_RADIUS <= (#[trigger] self.planets[p]).radius
                < MAX_PLANET_RADIUS
    }

    /// The planets are listed star by star, in the order of the stars.
    pub open spec fn planets_sorted(self) -> bool {
        forall|a: int, b: int|
            0 <= a < b < self.planets.len() ==> (#[trigger] self.planets[a]).star <= (
            #[trigger] self.planets[b]).star
    }

    /// What the placement keeps true of the planets while it adds them.
    pub open spec fn planets_placed(self) -> bool {
        &&& self.planets_in_annulus()
        &&& self.orbits_apart()
        &&& self.planets_sized()
    }

    /// Every star has as many planets as the placement draws for one star.
    pub open spec fn stars_populated(self) -> bool {
        forall|s: int|
            0 <= s < self.stars.len() ==> MIN_NUM_PLANETS <= #[trigger] planets_of(self.planets, s)
                < MAX_NUM_PLANETS
    }
}

/// How many of `planets` orbit star `star`.
pub open spec fn planets_of(planets: Seq<Planet>, star: int) -> nat
    decreases planets.len(),
{
    if planets.len() == 0 {
        0
    } else {
        planets_of(planets.drop_last(), star) + if planets.last().star == star {
            1nat
        } else {
            0nat
        }
    }
}

/// A star that none of the planets orbits has no planets.
pub proof fn lemma_no_planets(planets: Seq<Planet>, star: int)
    requires
        forall|p: int| 0 <= p < planets.len() ==> (#[trigger] planets[p]).star != star,
    ensures
        planets_of(planets, star) == 0,
    decreases planets.len(),
{
    if planets.len() > 0 {
        lemma_no_planets(planets.drop_last(), star);
    }
}

/// Planets added to the end of the list count for their star and for no
/// other.
pub proof fn lemma_more_planets(before: Seq<Planet>, after: Seq<Planet>, star: int, other: int)
    requires
        before.len() <= after.len(),
        after.subrange(0, before.len() as int) == before,
        forall|p: int| before.len() <= p < after.len() ==> (#[trigger] after[p]).star == star,
        other != star,
    ensures
        planets_of(after, star) == planets_of(before, star) + after.len() - before.len(),
        planets_of(after, other) == planets_of(before, other),
    decreases after.len() - before.len(),
{
    if after.len() == before.len() {
        assert(after =~= before);
    } else {
        let shorter = after.drop_last();
        assert(shorter.subrange(0, before.len() as int) =~= before);
        lemma_more_planets(before, shorter, star, other);
    }
}

impl Star {
    /// The distances at which a planet of radius `radius` may orbit this
    /// star, from the nearest to the farthest; none where the planet is too
    /// large for the star's system.
    pub open spec fn orbit_range_of(self, radius: u32) -> Option<(u32, u32)> {
        if self.orbit_low(radius as int) <= self.orbit_high(radius as int) {
            Some((self.orbit_low(radius as int) as u32, self.orbit_high(radius as int) as u32))
        } else {
            None
        }
    }

    /// The distances at which a planet of radius `radius` may orbit this
    /// star: the range that the placement draws a distance from.
    pub fn orbit_range(&self, radius: u32) -> (range: Option<(u32, u32)>)
        ensures
            range == self.orbit_range_of(radius),
    {
        let range: u64 = PLANET_ACTIVATE_RANGE as u64;
        let clearance: u64 = range * radius as u64;
        let low: u64 = self.radius as u64 + clearance;
        if clearance <= self.system_radius as u64 && low <= self.system_radius as u64 - clearance {
            Some((low as u32, (self.system_radius as u64 - clearance) as u32))
        } else {
            None
        }
    }
}

/// A distance drawn from a star's orbit range lies in the star's annulus,
/// whatever the source answered. And where the star's system lies inside the
/// window, so does the orbit.
pub proof fn lemma_drawn_distance_fits(
    star: Star,
    radius: u32,
    distance: u32,
    width: u32,
    height: u32,
)
    requires
        star.orbit_range_of(radius) matches Some(range) && drawable(range.0, range.1, distance),
    ensures
        ({
            let planet = Planet { star: 0, radius, distance, q: 0, dq: 0, direction: false };
            &&& planet.in_annulus(star)
            &&& star.inside(width, height) ==> planet.orbit_inside(star, width, height)
        }),
{
}

/// A star whose system fits keeps the stars apart and inside the window, and
/// the universe consistent; a star that a try adds keeps them sized.
pub proof fn lemma_star_added(before: UniverseView, star: Star)
    requires
        before.star_fits(star.x, star.y, star.system_radius),
    ensures
        ({
            let after = before.with_stars(before.stars.push(star));
            &&& before.stars_apart() ==> after.stars_apart()
            &&& before.stars_inside() ==> after.stars_inside()
            &&& before.stars_sized() && before.takes_star(star) ==> after.stars_sized()
            &&& before.wf() && before.stars.len() < u32::MAX ==> after.wf()
        }),
{
    let after = before.with_stars(before.stars.push(star));
    if before.stars_apart() {
        assert forall|i: int, j: int| 0 <= i < j < after.stars.len() implies !(
        #[trigger] after.stars[i]).overlaps(#[trigger] after.stars[j]) by {
            if j < before.stars.len() {
                assert(!before.stars[i].overlaps(before.stars[j]));
            } else {
                assert(after.stars[i] == before.stars[i]);
            }
        }
    }
    if before.stars_inside() {
        assert forall|i: int| 0 <= i < after.stars.len() implies (#[trigger] after.stars[i]).inside(
            after.width,
            after.height,
        ) by {
            if i < before.stars.len() {
                assert(before.stars[i].inside(before.width, before.height));
            }
        }
    }
    if before.stars_sized() && before.takes_star(star) {
        assert forall|i: int| 0 <= i < after.stars.len() implies MIN_STAR_RADIUS <= (
        #[trigger] after.stars[i]).radius < MAX_STAR_RADIUS && MIN_STAR_SYSTEM_RADIUS
            <= after.stars[i].system_radius < MAX_STAR_SYSTEM_RADIUS by {
            if i < before.stars.len() {
                assert(before.stars[i].radius >= MIN_STAR_RADIUS);
            }
        }
    }
    if before.wf() && before.stars.len() < u32::MAX {
        assert forall|p: int| 0 <= p < after.planets.len() implies #[trigger] after.planet_ok(
            p,
        ) by {
            assert(before.planet_ok(p));
        }
    }
}

/// A planet at rest whose orbit fits keeps the orbits in their annulus and
/// apart, and the universe consistent; a planet that a try adds keeps the
/// planets sized.
pub proof fn lemma_planet_added(before: UniverseView, planet: Planet)
    requires
        before.planet_fits(planet.star, planet.radius, planet.distance),
        planet.q == 0 && planet.dq == 0 && !planet.direction,
    ensures
        ({
            let after = before.with_planets(before.planets.push(planet));
            &&& before.planets_in_annulus() ==> after.planets_in_annulus()
            &&& before.orbits_apart() ==> after.orbits_apart()
            &&& before.planets_sized() && before.takes_planet(planet) ==> after.planets_sized()
            &&& before.wf() && before.planets.len() < u32::MAX ==> after.wf()
        }),
{
    let after = before.with_planets(before.planets.push(planet));
    assert(planet == (Planet {
        star: planet.star,
        radius: planet.radius,
        distance: planet.distance,
        q: 0,
        dq: 0,
        direction: false,
    }));
    if before.planets_in_annulus() {
        assert forall|p: int| 0 <= p < after.planets.len() implies (
        #[trigger] after.planets[p]).star < after.stars.len() && after.planets[p].in_annulus(
            after.star_of(p),
        ) by {
            if p < before.planets.len() {
                assert(before.planets[p].in_annulus(before.star_of(p)));
            }
        }
    }
    if before.orbits_apart() {
        assert forall|a: int, b: int|
            0 <= a < b < after.planets.len() && (#[trigger] after.planets[a]).star == (
            #[trigger] after.planets[b]).star implies !after.planets[a].collides(
            after.planets[b],
        ) by {
            if b < before.planets.len() {
                assert(!before.planets[a].collides(before.planets[b]));
            } else {
                assert(after.planets[a] == before.planets[a]);
            }
        }
    }
    if before.planets_sized() && before.takes_planet(planet) {
        assert forall|p: int| 0 <= p < after.planets.len() implies MIN_PLANET_RADIUS <= (
        #[trigger] after.planets[p]).radius < MAX_PLANET_RADIUS by {
            if p < before.planets.len() {
                assert(before.planets[p].radius >= MIN_PLANET_RADIUS);
            }
        }
    }
    if before.wf() && before.planets.len() < u32::MAX {
        assert forall|p: int| 0 <= p < after.planets.len() implies #[trigger] after.planet_ok(
            p,
        ) by {
            if p < before.planets.len() {
                assert(before.planet_ok(p));
            }
        }
    }
}

impl Universe {
    /// Whether the disc of radius `radius` around `(x, y)` lies inside the
    /// window.
    pub fn within_window(&self, x: u32, y: u32, radius: u32) -> (inside: bool)
        ensures
            inside == disc_in_window(
                self@.width as int,
                self@.height as int,
                x as int,
                y as int,
                radius as int,
            ),
    {
        disc_fits(self.width, self.height, x, y, radius)
    }

    /// Whether a star system of radius `system_radius` around `(x, y)` can be
    /// added: it lies inside the window and overlaps no system that is there.
    pub fn accepts_star(&self, x: u32, y: u32, system_radius: u32) -> (fits: bool)
        ensures
            fits == self@.star_fits(x, y, system_radius),
    {
        let ghost view = self@;
        let mut star: usize = 0;
        while star < self.stars.len()
            invariant
                view == self@,
                star <= self.stars.len(),
                forall|i: int|
                    0 <= i < star ==> !discs_overlap(
                        (#[trigger] view.stars[i]).x as int,
                        view.stars[i].y as int,
                        view.stars[i].system_radius as int,
                        x as int,
                        y as int,
                        system_radius as int,
                    ),
            decreases self.stars.len() - star,
        {
            let other = self.stars[star];
            assert(other == view.stars[star as int]);
            if circles_overlap(other.x, other.y, other.system_radius, x, y, system_radius) {
                return false;
            }
            star += 1;
        }
        self.within_window(x, y, system_radius)
    }

    /// Adds `star` if its system fits: inside the window and clear of the
    /// systems that are there. Else nothing changes.
    pub fn offer_star(&mut self, star: Star) -> (added: bool)
        ensures
            added == old(self)@.star_fits(star.x, star.y, star.system_radius),
            added ==> final(self)@ == old(self)@.with_stars(old(self)@.stars.push(star)),
            !added ==> final(self)@ == old(self)@,
            old(self).wf() && old(self)@.stars.len() < u32::MAX ==> final(self).wf(),
    {
        if !self.accepts_star(star.x, star.y, star.system_radius) {
            return false;
        }
        self.stars.push(star);
        proof {
            lemma_star_added(old(self)@, star);
        }
        true
    }

    /// Tries to add one star: draws a centre and a system radius up to
    /// `MAX_TRIES` times and offers the first that fits, with a body radius
    /// drawn for it.
    ///
    /// On success exactly one star has come to the end of the list, and it is
    /// one that a try can add to the universe as it was. On failure nothing
    /// has changed. The source decides which of the two it is, but for a
    /// window in which no star system fits.
    fn place_star<R: RandomSource>(&mut self, rng: &mut R) -> (placed: bool)
        ensures
            placed ==> final(self)@ == old(self)@.with_stars(
                old(self)@.stars.push(final(self)@.stars.last()),
            ) && old(self)@.takes_star(final(self)@.stars.last()),
            !placed ==> final(self)@ == old(self)@,
            old(self)@.width < 2 * MIN_STAR_SYSTEM_RADIUS || old(self)@.height < 2
                * MIN_STAR_SYSTEM_RADIUS ==> !placed,
            old(self)@.stars_apart() ==> final(self)@.stars_apart(),
            old(self)@.stars_inside() ==> final(self)@.stars_inside(),
            old(self)@.stars_sized() ==> final(self)@.stars_sized(),
            old(self).wf() && old(self)@.stars.len() < u32::MAX ==> final(self).wf(),
    {
        let mut tries: u32 = 0;
        while tries < MAX_TRIES
            invariant
                self@ == old(self)@,
            decreases MAX_TRIES - tries,
        {
            tries += 1;
            let x = draw(rng, 0, self.width);
            let y = draw(rng, 0, self.height);
            let system_radius = draw(rng, MIN_STAR_SYSTEM_RADIUS, MAX_STAR_SYSTEM_RADIUS);
            if self.accepts_star(x, y, system_radius) {
                let radius = draw(rng, MIN_STAR_RADIUS, MAX_STAR_RADIUS);
                let star = Star { x, y, radius, system_radius };
                self.offer_star(star);
                proof {
                    lemma_star_added(old(self)@, star);
                    assert(self@.stars.last() == star);
                }
                return true;
            }
        }
        false
    }

    /// Tries to add `count` stars, one after the other, and stops at the
    /// first that finds no place.
    ///
    /// Only stars change, and those that were there stay. Each star that has
    /// come to the end of the list was taken by the universe that held the
    /// stars before it, and the set is complete exactly on success: no star
    /// is asked for and none is missing where `count` is 0, and a star that
    /// found no place leaves the set short.
    fn place_stars<R: RandomSource>(&mut self, rng: &mut R, count: u32) -> (placed: bool)
        ensures
            final(self)@ == old(self)@.with_stars(final(self)@.stars),
            final(self)@.holds_stars_after(old(self)@.stars),
            final(self)@.stars.len() <= old(self)@.stars.len() + count,
            placed == (final(self)@.stars.len() == old(self)@.stars.len() + count),
            old(self)@.stars_apart() ==> final(self)@.stars_apart(),
            old(self)@.stars_inside() ==> final(self)@.stars_inside(),
            old(self)@.stars_sized() ==> final(self)@.stars_sized(),
            old(self).wf() && old(self)@.stars.len() + count <= u32::MAX ==> final(self).wf(),
    {
        let ghost start = old(self)@.stars;
        let mut slot: u32 = 0;
        assert(self@.stars.take(start.len() as int) =~= start);
        while slot < count
            invariant
                slot <= count,
                start == old(self)@.stars,
                self@ == old(self)@.with_stars(self@.stars),
                self@.stars.len() == start.len() + slot,
                self@.holds_stars_after(start),
                old(self)@.stars_apart() ==> self@.stars_apart(),
                old(self)@.stars_inside() ==> self@.stars_inside(),
                old(self)@.stars_sized() ==> self@.stars_sized(),
                old(self).wf() && old(self)@.stars.len() + count <= u32::MAX ==> self.wf(),
            decreases count - slot,
        {
            let ghost before = self@;
            if !self.place_star(rng) {
                return false;
            }
            proof {
                let after = self@;
                assert(after.stars.take(start.len() as int) =~= before.stars.take(
                    start.len() as int,
                ));
                assert forall|i: int| start.len() <= i < after.stars.len() implies after.with_stars(
                    after.stars.take(i),
                ).takes_star(#[trigger] after.stars[i]) by {
                    if i < before.stars.len() {
                        assert(after.stars.take(i) =~= before.stars.take(i));
                        assert(before.with_stars(before.stars.take(i)).takes_star(before.stars[i]));
                    } else {
                        assert(after.stars.take(i) =~= before.stars);
                        assert(after.with_stars(before.stars) == before);
                    }
                }
            }
            slot += 1;
        }
        true
    }

    /// Places a fresh set of stars: draws how many there shall be from
    /// `[MIN_NUM_STARS, MAX_NUM_STARS)`, then places them, starting the whole
    /// set over up to `MAX_TRIES` times when one of them finds no place. A
    /// star is a centre drawn from `[0, width)` and `[0, height)` with a
    /// system radius from `[MIN_STAR_SYSTEM_RADIUS, MAX_STAR_SYSTEM_RADIUS)`
    /// that `accepts_star` takes, and then a body radius from
    /// `[MIN_STAR_RADIUS, MAX_STAR_RADIUS)`.
    ///
    /// Only the stars change. The first set is added to the stars that are
    /// there; a set that is started over starts from no star at all. On
    /// success the last set is complete: as many stars as were drawn. On
    /// failure what the last set got to is left. A window in which no star
    /// system fits gives `false`.
    ///
    /// Planets, packet and score stay as they are, also where the stars they
    /// belong to are gone: the universe stays consistent where it held no
    /// planet, and there the stars that are left lie inside the window and
    /// clear of each other.
    pub fn generate_stars<R: RandomSource>(&mut self, rng: &mut R) -> (done: bool)
        ensures
            final(self)@ == old(self)@.with_stars(final(self)@.stars),
            ({
                let before = old(self)@.stars;
                let after = final(self)@;
                let added = after.holds_stars_after(before);
                let alone = after.holds_stars_after(Seq::empty());
                &&& added || alone
                &&& done ==> (added && MIN_NUM_STARS <= after.stars.len() - before.len()
                    < MAX_NUM_STARS) || (alone && MIN_NUM_STARS <= after.stars.len()
                    < MAX_NUM_STARS)
                &&& !done ==> alone && after.stars.len() < MAX_NUM_STARS - 1
            }),
            done ==> old(self)@.width >= 2 * MIN_STAR_SYSTEM_RADIUS && old(self)@.height >= 2
                * MIN_STAR_SYSTEM_RADIUS,
            old(self)@.stars_apart() ==> final(self)@.stars_apart(),
            old(self)@.stars_inside() ==> final(self)@.stars_inside(),
            old(self)@.stars_sized() ==> final(self)@.stars_sized(),
            old(self).wf() && old(self)@.planets.len() == 0 && old(self)@.stars.len()
                + MAX_NUM_STARS <= u32::MAX ==> final(self).wf(),
    {
        let num_stars = draw(rng, MIN_NUM_STARS, MAX_NUM_STARS);
        let mut outer_tries: u32 = 0;
        while outer_tries < MAX_TRIES
            invariant
                MIN_NUM_STARS <= num_stars < MAX_NUM_STARS,
                self@ == old(self)@.with_stars(self@.stars),
                outer_tries == 0 ==> self@.stars == old(self)@.stars,
                outer_tries > 0 ==> self@.stars.len() == 0,
                old(self)@.stars_apart() ==> self@.stars_apart(),
                old(self)@.stars_inside() ==> self@.stars_inside(),
                old(self)@.stars_sized() ==> self@.stars_sized(),
                old(self).wf() && old(self)@.planets.len() == 0 && old(self)@.stars.len()
                    + MAX_NUM_STARS <= u32::MAX ==> self.wf(),
            decreases MAX_TRIES - outer_tries,
        {
            let ghost start = self@;
            assert(outer_tries > 0 ==> start.stars =~= Seq::empty());
            outer_tries += 1;
            if self.place_stars(rng, num_stars) {
                proof {
                    let last = self@.stars.len() - 1;
                    assert(self@.with_stars(self@.stars.take(last)).takes_star(self@.stars[last]));
                }
                return true;
            }
            if outer_tries == MAX_TRIES {
                return false;
            }
            self.stars.clear();
        }
        assert(self@.stars.take(0) =~= Seq::empty());
        false
    }

    /// Whether a planet of radius `radius` can be added at `distance` from
    /// star `star`.
    pub fn accepts_planet(&self, star: usize, radius: u32, distance: u32) -> (fits: bool)
        ensures
            fits == self@.planet_fits(star, radius, distance),
    {
        if star >= self.stars.len() {
            return false;
        }
        let sun = self.stars[star];
        let range: u64 = PLANET_ACTIVATE_RANGE as u64;
        let clearance: u64 = range * radius as u64;
        if sun.radius as u64 + clearance > distance as u64 || distance as u64 + clearance
            > sun.system_radius as u64 {
            return false;
        }
        if !disc_fits(self.width, self.height, sun.x, sun.y, distance) {
            return false;
        }
        let ghost view = self@;
        let ghost candidate = Planet { star, radius, distance, q: 0, dq: 0, direction: false };
        let mut planet: usize = 0;
        while planet < self.planets.len()
            invariant
                view == self@,
                planet <= self.planets.len(),
                candidate == (Planet { star, radius, distance, q: 0, dq: 0, direction: false }),
                range == 3,
                forall|p: int|
                    0 <= p < planet && (#[trigger] view.planets[p]).star == star
                        ==> !view.planets[p].collides(candidate),
            decreases self.planets.len() - planet,
        {
            let other = self.planets[planet];
            assert(other == view.planets[planet as int]);
            if other.star == star {
                let gap: u32 = if other.distance >= distance {
                    other.distance - distance
                } else {
                    distance - other.distance
                };
                if (gap as u64) < range * (other.radius as u64 + radius as u64) {
                    return false;
                }
            }
            planet += 1;
        }
        true
    }

    /// Adds a planet of radius `radius` at `distance` from star `star` if its
    /// orbit fits. The planet stands still at phase 0 until it is set in
    /// motion. Else nothing changes.
    pub fn offer_planet(&mut self, star: usize, radius: u32, distance: u32) -> (added: bool)
        ensures
            added == old(self)@.planet_fits(star, radius, distance),
            added ==> final(self)@ == old(self)@.with_planets(
                old(self)@.planets.push(
                    Planet { star, radius, distance, q: 0, dq: 0, direction: false },
                ),
            ),
            !added ==> final(self)@ == old(self)@,
            old(self).wf() && old(self)@.planets.len() < u32::MAX ==> final(self).wf(),
    {
        if !self.accepts_planet(star, radius, distance) {
            return false;
        }
        let planet = Planet { star, radius, distance, q: 0, dq: 0, direction: false };
        self.planets.push(planet);
        proof {
            lemma_planet_added(old(self)@, planet);
        }
        true
    }

    /// Tries to add one planet to star `star`: draws a radius and a distance
    /// up to `MAX_TRIES` times and offers each pair until one fits.
    ///
    /// On success exactly one planet has come to the end of the list: a
    /// planet of star `star` that a try can add to the universe as it was.
    /// On failure nothing has changed. The source decides which of the two
    /// it is.
    fn place_planet<R: RandomSource>(&mut self, rng: &mut R, star: usize) -> (placed: bool)
        requires
            star < old(self)@.stars.len(),
        ensures
            placed ==> final(self)@ == old(self)@.with_planets(
                old(self)@.planets.push(final(self)@.planets.last()),
            ) && final(self)@.planets.last().star == star && old(self)@.takes_planet(
                final(self)@.planets.last(),
            ),
            !placed ==> final(self)@ == old(self)@,
            old(self)@.planets_placed() ==> final(self)@.planets_placed(),
            old(self).wf() && old(self)@.planets.len() < u32::MAX ==> final(self).wf(),
    {
        let sun = self.stars[star];
        let mut tries: u32 = 0;
        while tries < MAX_TRIES
            invariant
                self@ == old(self)@,
                star < self@.stars.len(),
                sun == self@.stars[star as int],
            decreases MAX_TRIES - tries,
        {
            tries += 1;
            let radius = draw(rng, MIN_PLANET_RADIUS, MAX_PLANET_RADIUS);
            if let Some((low, high)) = sun.orbit_range(radius) {
                let distance = draw(rng, low, high);
                if self.offer_planet(star, radius, distance) {
                    proof {
                        let planet = Planet {
                            star,
                            radius,
                            distance,
                            q: 0,
                            dq: 0,
                            direction: false,
                        };
                        lemma_planet_added(old(self)@, planet);
                        assert(self@.planets.last() == planet);
                    }
                    return true;
                }
            }
        }
        false
    }

    /// Tries to add `count` planets to star `star`, one after the other, and
    /// stops at the first that finds no place.
    ///
    /// Only planets change, and those that were there stay. Each planet that
    /// has come to the end of the list belongs to star `star` and was taken
    /// by the universe that held the planets before it. The set is complete
    /// exactly on success: no planet is asked for and none is missing where
    /// `count` is 0, and a planet that found no place leaves the set short.
    fn place_planets<R: RandomSource>(&mut self, rng: &mut R, star: usize, count: u32) -> (placed:
        bool)
        requires
            star < old(self)@.stars.len(),
        ensures
            final(self)@ == old(self)@.with_planets(final(self)@.planets),
            old(self)@.planets.len() <= final(self)@.planets.len() <= old(self)@.planets.len()
                + count,
            final(self)@.planets.take(old(self)@.planets.len() as int) == old(self)@.planets,
            final(self)@.planets_taken(old(self)@.planets.len() as int, star),
            placed == (final(self)@.planets.len() == old(self)@.planets.len() + count),
            old(self)@.planets_placed() ==> final(self)@.planets_placed(),
            old(self).wf() && old(self)@.planets.len() + count <= u32::MAX ==> final(self).wf(),
    {
        let ghost start = self@.planets;
        let mut slot: u32 = 0;
        assert(self@.planets.take(start.len() as int) =~= start);
        while slot < count
            invariant
                slot <= count,
                start == old(self)@.planets,
                self@ == old(self)@.with_planets(self@.planets),
                star < self@.stars.len(),
                self@.planets.len() == start.len() + slot,
                self@.planets.take(start.len() as int) == start,
                self@.planets_taken(start.len() as int, star),
                old(self)@.planets_placed() ==> self@.planets_placed(),
                old(self).wf() && old(self)@.planets.len() + count <= u32::MAX ==> self.wf(),
            decreases count - slot,
        {
            let ghost before = self@;
            if !self.place_planet(rng, star) {
                return false;
            }
            proof {
                let after = self@;
                assert(after.planets.take(start.len() as int) =~= before.planets.take(
                    start.len() as int,
                ));
                assert forall|p: int| start.len() <= p < after.planets.len() implies (
                #[trigger] after.planets[p]).star == star && after.with_planets(
                    after.planets.take(p),
                ).takes_planet(after.planets[p]) by {
                    if p < before.planets.len() {
                        assert(after.planets[p] == before.planets[p]);
                        assert(after.planets.take(p) =~= before.planets.take(p));
                        assert(before.with_planets(before.planets.take(p)).takes_planet(
                            before.planets[p],
                        ));
                    } else {
                        assert(after.planets.take(p) =~= before.planets);
                        assert(after.with_planets(before.planets) == before);
                    }
                }
            }
            slot += 1;
        }
        true
    }

    /// Gives star `star` its planets: draws how many there shall be, then
    /// places them, starting the star's whole set over up to `MAX_TRIES`
    /// times when one of them finds no place.
    ///
    /// Only planets change, and those that were there stay. Each planet that
    /// has come to the end of the list belongs to star `star` and was taken
    /// by the universe that held the planets before it. On success they are
    /// as many as can be drawn for one star. On failure they are what the
    /// last set got to before a planet found no place: fewer than the largest
    /// set. The source decides which of the two it is.
    fn populate_star<R: RandomSource>(&mut self, rng: &mut R, star: usize) -> (placed: bool)
        requires
            star < old(self)@.stars.len(),
        ensures
            final(self)@ == old(self)@.with_planets(final(self)@.planets),
            final(self)@.planets.take(old(self)@.planets.len() as int) == old(self)@.planets,
            final(self)@.planets_taken(old(self)@.planets.len() as int, star),
            old(self)@.planets.len() <= final(self)@.planets.len(),
            placed ==> MIN_NUM_PLANETS <= final(self)@.planets.len() - old(self)@.planets.len()
                < MAX_NUM_PLANETS,
            !placed ==> final(self)@.planets.len() < old(self)@.planets.len() + MAX_NUM_PLANETS
                - 1,
            old(self)@.planets_placed() ==> final(self)@.planets_placed(),
            old(self).wf() && old(self)@.planets.len() + MAX_NUM_PLANETS <= u32::MAX ==> final(self).wf(),
    {
        let system_index = self.planets.len();
        let mut outer_tries: u32 = 0;
        while outer_tries < MAX_TRIES
            invariant
                self@ == old(self)@,
                system_index == self@.planets.len(),
                star < self@.stars.len(),
            decreases MAX_TRIES - outer_tries,
        {
            outer_tries += 1;
            let num_planets_in_star = draw(rng, MIN_NUM_PLANETS, MAX_NUM_PLANETS);
            let placed = self.place_planets(rng, star, num_planets_in_star);
            if placed {
                return true;
            }
            if outer_tries == MAX_TRIES {
                return false;
            }
            self.planets.truncate(system_index);
            assert(self@.planets =~= old(self)@.planets);
        }
        assert(self@.planets.take(old(self)@.planets.len() as int) =~= old(self)@.planets);
        false
    }

    /// Adds planets to every star, star by star in the order of the stars.
    /// For each star it draws the number of planets from
    /// `[MIN_NUM_PLANETS, MAX_NUM_PLANETS)`, then for each planet a radius
    /// from `[MIN_PLANET_RADIUS, MAX_PLANET_RADIUS)` and a distance from the
    /// star's `orbit_range` for that radius, and offers the pair; a star's
    /// whole set is started over up to `MAX_TRIES` times when one of its
    /// planets finds no place.
    ///
    /// Only planets change, and those that were there stay in their places.
    /// Each planet that has come to the end of the list was taken by the
    /// universe that held the planets before it: its orbit keeps clear of its
    /// star, inside the star's system and inside the window, and clear of the
    /// orbits of all planets of that star. On success every star has got its
    /// planets; on failure the placement stopped at a star that found no set
    /// of planets, and the stars before it keep theirs. Without stars there
    /// is nothing to draw and nothing to fail.
    pub fn generate_planet_positions<R: RandomSource>(&mut self, rng: &mut R) -> (done: bool)
        ensures
            final(self)@ == old(self)@.with_planets(final(self)@.planets),
            final(self)@.holds_planets_after(old(self)@.planets),
            done ==> final(self)@.stars_populated_since(old(self)@.planets.len() as int),
            old(self)@.stars.len() == 0 ==> done,
            old(self)@.planets_placed() ==> final(self)@.planets_placed(),
            old(self).wf() && old(self)@.planets.len() + old(self)@.stars.len() * MAX_NUM_PLANETS
                <= u32::MAX ==> final(self).wf(),
    {
        let ghost start = old(self)@.planets.len() as int;
        let mut star: usize = 0;
        assert(self@.planets.take(start) =~= old(self)@.planets);
        assert(self@.planets_since(start) =~= Seq::empty());
        while star < self.stars.len()
            invariant
                star <= self@.stars.len(),
                start == old(self)@.planets.len(),
                self@ == old(self)@.with_planets(self@.planets),
                self@.holds_planets_after(old(self)@.planets),
                self@.planets.len() <= start + star * MAX_NUM_PLANETS,
                forall|p: int| start <= p < self@.planets.len() ==> (#[trigger] self@.planets[p]).star
                    < star,
                forall|s: int|
                    0 <= s < star ==> MIN_NUM_PLANETS <= #[trigger] planets_of(
                        self@.planets_since(start),
                        s,
                    ) < MAX_NUM_PLANETS,
                old(self)@.planets_placed() ==> self@.planets_placed(),
                old(self).wf() && old(self)@.planets.len() + old(self)@.stars.len()
                    * MAX_NUM_PLANETS <= u32::MAX ==> self.wf(),
            decreases self.stars.len() - star,
        {
            let ghost before = self@;
            let placed = self.populate_star(rng, star);
            proof {
                let after = self@;
                assert forall|p: int| 0 <= p < before.planets.len() implies after.planets[p]
                    == before.planets[p] by {
                    assert(after.planets.take(before.planets.len() as int)[p] == before.planets[p]);
                }
                assert(after.planets.take(start) =~= before.planets.take(start));
                assert forall|p: int| start <= p < after.planets.len() implies after.with_planets(
                    after.planets.take(p),
                ).takes_planet(#[trigger] after.planets[p]) by {
                    if p < before.planets.len() {
                        assert(after.planets.take(p) =~= before.planets.take(p));
                        assert(before.with_planets(before.planets.take(p)).takes_planet(
                            before.planets[p],
                        ));
                    }
                }
                assert forall|a: int, b: int| start <= a < b < after.planets.len() implies (
                #[trigger] after.planets[a]).star <= (#[trigger] after.planets[b]).star by {
                    if b < before.planets.len() {
                        assert(before.planets[a].star <= before.planets[b].star);
                    } else if a < before.planets.len() {
                        assert(before.planets[a].star < star);
                    }
                }
            }
            if !placed {
                return false;
            }
            proof {
                let after = self@;
                let had = before.planets_since(start);
                let has = after.planets_since(start);
                assert(has.subrange(0, had.len() as int) =~= had);
                assert forall|p: int| had.len() <= p < has.len() implies (#[trigger] has[p]).star
                    == star by {
                    assert(after.planets[start + p].star == star);
                }
                assert forall|p: int| 0 <= p < had.len() implies (#[trigger] had[p]).star
                    != star by {
                    assert(before.planets[start + p].star < star);
                }
                lemma_no_planets(had, star as int);
                assert forall|s: int| 0 <= s < star + 1 implies MIN_NUM_PLANETS
                    <= #[trigger] planets_of(has, s) < MAX_NUM_PLANETS by {
                    if s < star {
                        lemma_more_planets(had, has, star as int, s);
                    } else {
                        lemma_more_planets(had, has, star as int, star + 1);
                    }
                }
                assert forall|p: int| start <= p < after.planets.len() implies (
                #[trigger] after.planets[p]).star < star + 1 by {
                    if p < before.planets.len() {
                        assert(before.planets[p].star < star);
                    }
                }
            }
            star += 1;
        }
        true
    }
}

} // verus!
