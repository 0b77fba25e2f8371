use star_relay::{Packet, Planet, RandomSource, Star, Universe};

struct Lcg(u64);

impl RandomSource for Lcg {
    fn uniform_int(&mut self, low: u32, high: u32) -> u32 {
        self.0 = self.0.wrapping_mul(6364136223846793005).wrapping_add(1442695040888963407);
        if high <= low {
            return low;
        }
        low + ((self.0 >> 33) % u64::from(high - low)) as u32
    }
}

struct Silent;

impl RandomSource for Silent {
    fn uniform_int(&mut self, _low: u32, _high: u32) -> u32 {
        panic!("nothing is drawn on this tick");
    }
}

/// A window of 200 by 200 pixels with one planet in its middle.
fn centred() -> Universe {
    let stars = vec![Star { x: 100, y: 60, radius: 8, system_radius: 60 }];
    let planets = vec![Planet { star: 0, radius: 3, distance: 40, q: 900, dq: 4, direction: true }];
    Universe::from_parts(200, 200, stars, planets, 0, 0).unwrap()
}

/// One star in the middle of a window of 1200 by 800 pixels, with an inner
/// planet (the source) and an outer planet (the destination).
fn pair() -> Universe {
    let stars = vec![Star { x: 600, y: 400, radius: 10, system_radius: 200 }];
    let planets = vec![
        Planet { star: 0, radius: 5, distance: 60, q: 0, dq: 2, direction: true },
        Planet { star: 0, radius: 5, distance: 150, q: 1800, dq: 6, direction: false },
    ];
    Universe::from_parts(1200, 800, stars, planets, 0, 1).unwrap()
}

fn resting_at(x: i64, y: i64, last_planet: usize) -> Packet {
    Packet::Free { x, y, dx: 0, dy: 0, last_planet }
}

#[test]
fn empty_universe_does_not_tick() {
    let mut universe = Universe::empty(1200, 800);
    assert!(universe.tick(&mut Silent).is_none());
    assert_eq!(universe.num_planets(), 0);
    assert_eq!(universe.packet(), Packet::new());
}

#[test]
fn planets_move_along_their_orbits() {
    let mut universe = pair();
    assert!(universe.tick(&mut Silent).is_some());
    assert_eq!(universe.planet(0).unwrap().q, 2);
    assert_eq!(universe.planet(1).unwrap().q, 1794);
    for _ in 0..9 {
        universe.tick(&mut Silent);
    }
    assert_eq!(universe.planet(0).unwrap().q, 20);
    assert_eq!(universe.planet(1).unwrap().q, 1740);
    let first = universe.planet(0).unwrap();
    assert_eq!((first.star, first.radius, first.distance, first.dq, first.direction), (0, 5, 60, 2, true));
    assert_eq!(universe.star(0), Some(Star { x: 600, y: 400, radius: 10, system_radius: 200 }));
}

#[test]
fn planet_phases_wrap_at_a_full_turn() {
    let mut universe = pair();
    for tick in 1..=4000u32 {
        universe.tick(&mut Silent);
        let forward = universe.planet(0).unwrap().q;
        let backward = universe.planet(1).unwrap().q;
        assert_eq!(forward, (2 * tick) % 3600);
        assert_eq!((backward + 6 * tick) % 3600, 1800);
        assert!(forward < 3600 && backward < 3600);
    }
}

#[test]
fn bound_packet_turns_while_the_universe_ticks() {
    let mut universe = pair();
    assert_eq!(universe.packet(), Packet::Bound { planet: 0, q: 0, dq: 24, direction: true });
    universe.tick(&mut Silent);
    assert_eq!(universe.packet(), Packet::Bound { planet: 0, q: 24, dq: 24, direction: true });
    for _ in 0..149 {
        universe.tick(&mut Silent);
    }
    assert_eq!(universe.packet(), Packet::Bound { planet: 0, q: 0, dq: 24, direction: true });
    assert_eq!(universe.score(), 0);
    assert!(!universe.packet_reached_destination());
}

#[test]
fn free_packet_flies_on() {
    let mut universe = pair();
    let flying = Packet::Free { x: 100_000_000, y: 100_000_000, dx: 5_000_000, dy: -3_000_000, last_planet: 0 };
    assert!(universe.set_packet(flying));
    universe.tick(&mut Silent);
    assert_eq!(
        universe.packet(),
        Packet::Free { x: 105_000_000, y: 97_000_000, dx: 5_000_000, dy: -3_000_000, last_planet: 0 }
    );
}

#[test]
fn free_packet_leaving_the_window_goes_back_to_the_source() {
    let mut universe = pair();
    // The destination takes the packet first, so that there is a trip to lose.
    assert!(universe.set_packet(resting_at(450_000_000, 400_000_000, 0)));
    universe.tick(&mut Silent);
    assert_eq!(universe.packet().get_last_planet(), 1);
    assert!(universe.packet().is_bound());
    assert!(universe.packet_reached_destination());
    let width = i64::from(universe.width());
    let leaving = Packet::Free {
        x: (width - 1) * 1_000_000,
        y: 300_000_000,
        dx: 5_000_000,
        dy: 0,
        last_planet: 1,
    };
    assert!(universe.set_packet(leaving));
    assert_eq!(Packet::tick(leaving, universe.width(), universe.height()), (false, leaving));
    universe.tick(&mut Silent);
    let source = universe.planet(universe.packet_source()).unwrap();
    assert_eq!(source.q, 4);
    assert_eq!(
        universe.packet(),
        Packet::Bound { planet: 0, q: source.q, dq: 26 - source.dq, direction: source.direction }
    );
    assert!(!universe.packet_reached_destination());
    assert_eq!(universe.score(), 0);
}

#[test]
fn free_packet_leaves_on_every_side() {
    for (x, y, dx, dy) in [
        (0, 300_000_000, -1, 0),
        (1_200_000_000, 300_000_000, 1, 0),
        (300_000_000, 0, 0, -1),
        (300_000_000, 800_000_000, 0, 1),
    ] {
        let mut universe = pair();
        assert!(universe.set_packet(Packet::Free { x, y, dx, dy, last_planet: 1 }));
        universe.tick(&mut Silent);
        assert_eq!(universe.packet(), Packet::Bound { planet: 0, q: 2, dq: 24, direction: true });
    }
}

#[test]
fn planet_captures_a_packet_within_reach() {
    // After the tick the destination has a phase of 179.4 degrees and stands
    // at (450.008250, 401.570800). It has radius 5, so it reaches 22 pixels.
    let mut universe = pair();
    assert!(universe.set_packet(resting_at(450_000_000, 423_570_798, 0)));
    universe.tick(&mut Silent);
    assert_eq!(universe.planet_x(1), 450_008_250);
    assert_eq!(universe.planet_y(1), 401_570_800);
    assert_eq!(universe.packet(), Packet::Bound { planet: 1, q: 1794, dq: 20, direction: false });
    assert!(universe.packet_reached_destination());
    assert_eq!(universe.score(), 0);
}

#[test]
fn planet_leaves_a_packet_out_of_reach() {
    let mut universe = pair();
    let resting = resting_at(450_000_000, 423_570_799, 0);
    assert!(universe.set_packet(resting));
    universe.tick(&mut Silent);
    assert_eq!(universe.packet(), resting);
    assert!(!universe.packet_reached_destination());
}

#[test]
fn planet_does_not_capture_the_packet_it_released() {
    let mut universe = pair();
    let resting = resting_at(450_000_000, 415_000_000, 1);
    assert!(universe.set_packet(resting));
    universe.tick(&mut Silent);
    assert_eq!(universe.packet(), resting);
}

#[test]
fn first_planet_within_reach_captures() {
    let stars = vec![Star { x: 600, y: 400, radius: 10, system_radius: 200 }];
    let planets = vec![
        Planet { star: 0, radius: 5, distance: 100, q: 0, dq: 0, direction: true },
        Planet { star: 0, radius: 5, distance: 110, q: 0, dq: 0, direction: true },
        Planet { star: 0, radius: 5, distance: 120, q: 0, dq: 0, direction: true },
    ];
    let mut universe = Universe::from_parts(1200, 800, stars, planets, 0, 2).unwrap();
    assert!(universe.set_packet(resting_at(710_000_000, 400_000_000, 7)));
    universe.tick(&mut Silent);
    assert_eq!(universe.packet().get_last_planet(), 0);
    assert!(universe.set_packet(resting_at(710_000_000, 400_000_000, 0)));
    universe.tick(&mut Silent);
    assert_eq!(universe.packet(), Packet::Bound { planet: 1, q: 0, dq: 26, direction: true });
    assert!(!universe.packet_reached_destination());
}

#[test]
fn source_does_not_score_before_the_destination_was_reached() {
    let mut universe = pair();
    assert!(universe.set_packet(resting_at(660_000_000, 400_000_000, 1)));
    universe.tick(&mut Silent);
    assert_eq!(universe.packet(), Packet::Bound { planet: 0, q: 2, dq: 24, direction: true });
    assert_eq!(universe.score(), 0);
    assert!(!universe.packet_reached_destination());
    assert_eq!(universe.num_stars(), 1);
}

#[test]
fn round_trip_scores_once_and_renews_the_universe() {
    let mut rng = Lcg(7);
    let mut universe = pair();
    assert!(universe.set_packet(resting_at(450_000_000, 400_000_000, 0)));
    assert!(universe.tick(&mut rng).is_some());
    assert!(universe.packet_reached_destination());
    assert_eq!(universe.score(), 0);
    assert!(universe.set_packet(resting_at(660_000_000, 400_000_000, 1)));
    let frame = universe.tick(&mut rng);
    assert_eq!(universe.score(), 1);
    let mut rounds = 0;
    while universe.num_planets() == 0 {
        universe.generate(&mut rng);
        rounds += 1;
        assert!(rounds < 10_000);
    }
    if rounds == 0 {
        assert_eq!(frame, universe.frame());
    } else {
        assert!(frame.is_none());
    }
    assert_eq!(universe.score(), 1);
    assert!(universe.num_stars() >= 3);
    assert!(!universe.packet_reached_destination());
    assert!(universe.packet().is_bound());
    assert_eq!(universe.packet().get_last_planet(), universe.packet_source());
    assert_eq!((universe.width(), universe.height()), (1200, 800));
    for _ in 0..500 {
        universe.tick(&mut rng);
    }
    assert_eq!(universe.score(), 1);
}

#[test]
fn single_planet_is_source_and_destination_at_once() {
    let mut rng = Lcg(3);
    let stars = vec![Star { x: 600, y: 400, radius: 10, system_radius: 200 }];
    let planets = vec![Planet { star: 0, radius: 5, distance: 60, q: 0, dq: 2, direction: true }];
    let mut universe = Universe::from_parts(1200, 800, stars, planets, 0, 0).unwrap();
    assert!(universe.set_packet(resting_at(660_000_000, 400_000_000, 9)));
    universe.tick(&mut rng);
    assert_eq!(universe.score(), 1);
}

/// Lets the packet go at the first tick from which it is next taken by
/// `target`, and flies it there.
fn fly_to(universe: &Universe, target: usize, score: u32, rng: &mut Lcg) -> Universe {
    let mut waiting = universe.clone();
    for _ in 0..20_000 {
        let mut trial = waiting.clone();
        trial.free_packet();
        assert!(!trial.packet().is_bound());
        for _ in 0..400 {
            trial.tick(rng);
            if trial.score() != universe.score() || trial.packet().is_bound() {
                break;
            }
        }
        if trial.score() == score
            && (score != universe.score() || trial.packet().get_last_planet() == target)
            && (score != universe.score() || trial.packet().is_bound())
        {
            return trial;
        }
        waiting.tick(rng);
    }
    panic!("no way to planet {}", target);
}

#[test]
fn packet_flies_the_round_trip() {
    let mut rng = Lcg(11);
    let start = pair();
    let there = fly_to(&start, 1, 0, &mut rng);
    assert_eq!(there.packet().get_last_planet(), 1);
    assert!(there.packet().is_bound());
    assert!(there.packet_reached_destination());
    assert_eq!(there.score(), 0);
    assert_eq!(there.num_stars(), 1);
    let mut back = fly_to(&there, 0, 1, &mut rng);
    assert_eq!(back.score(), 1);
    let mut rounds = 0;
    while back.num_planets() == 0 {
        back.generate(&mut rng);
        rounds += 1;
        assert!(rounds < 10_000);
    }
    assert_eq!(back.score(), 1);
    assert!(back.num_stars() >= 3);
    assert!(!back.packet_reached_destination());
    assert!(back.is_well_formed());
}

#[test]
fn frame_of_a_bound_packet() {
    let mut universe = centred();
    assert_eq!(
        universe.frame().unwrap(),
        vec![
            0, 0, // score
            100, 100, 100, 0, // the flight
            1, 100, 100, 4, // the planet that holds the packet
            2, 100, 100, 5, 100, 100, 5, // destination and source
            1, 100, 60, 8, // stars
            1, 100, 100, 3, // planets
        ]
    );
    let frame = universe.tick(&mut Silent).unwrap();
    assert_eq!(
        frame,
        vec![0, 0, 99, 99, 95, 0, 1, 99, 99, 4, 2, 99, 99, 5, 99, 99, 5, 1, 100, 60, 8, 1, 99, 99, 3]
    );
    assert_eq!(universe.frame().unwrap(), frame);
}

#[test]
fn frame_of_a_free_packet() {
    let mut universe = pair();
    assert!(universe.set_packet(Packet::Free {
        x: 150_900_000,
        y: 10_000_000,
        dx: 0,
        dy: 0,
        last_planet: 0
    }));
    assert_eq!(
        universe.frame().unwrap(),
        vec![
            0, 0, // score
            0, 150, 10, 7, // the packet
            2, 450, 400, 9, 660, 400, 9, // destination and source
            1, 600, 400, 10, // stars
            2, 660, 400, 5, 450, 400, 5, // planets
        ]
    );
}

#[test]
fn frame_lists_every_star_and_planet() {
    let mut rng = Lcg(21);
    let mut universe = Universe::new(1600, 900, &mut rng);
    while universe.num_planets() == 0 {
        universe.generate(&mut rng);
    }
    for _ in 0..50 {
        let frame = universe.tick(&mut rng).unwrap();
        let stars = universe.num_stars();
        let planets = universe.num_planets();
        assert_eq!(frame.len(), 2 + 8 + 7 + 1 + 3 * stars + 1 + 3 * planets);
        assert_eq!(frame[0], 0);
        assert_eq!(frame[1], universe.score());
        assert_eq!(frame[6], 1);
        assert_eq!(frame[10], 2);
        assert_eq!(frame[17] as usize, stars);
        for star in 0..stars {
            assert_eq!(frame[18 + 3 * star], universe.star_x(star));
            assert_eq!(frame[19 + 3 * star], universe.star_y(star));
            assert_eq!(frame[20 + 3 * star], universe.star_radius(star));
        }
        let base = 18 + 3 * stars;
        assert_eq!(frame[base] as usize, planets);
        for planet in 0..planets {
            assert_eq!(i64::from(frame[base + 1 + 3 * planet]), universe.planet_x(planet) / 1_000_000);
            assert_eq!(i64::from(frame[base + 2 + 3 * planet]), universe.planet_y(planet) / 1_000_000);
            assert_eq!(frame[base + 3 + 3 * planet], universe.planet_radius(planet));
        }
    }
}

#[test]
fn ticks_keep_the_placement() {
    let mut rng = Lcg(5);
    let mut universe = Universe::new(1600, 900, &mut rng);
    while universe.num_planets() == 0 {
        universe.generate(&mut rng);
    }
    let orbits = |universe: &Universe| -> Vec<(usize, u32, u32)> {
        (0..universe.num_planets())
            .map(|p| universe.planet(p).unwrap())
            .map(|p| (p.star, p.radius, p.distance))
            .collect()
    };
    let before = orbits(&universe);
    for _ in 0..1000 {
        universe.tick(&mut rng);
        assert!(universe.is_well_formed());
        for planet in 0..universe.num_planets() {
            let x = universe.planet_x(planet);
            let y = universe.planet_y(planet);
            assert!(0 <= x && x <= 1_600_000_000 && 0 <= y && y <= 900_000_000);
        }
    }
    assert_eq!(orbits(&universe), before);
}
