use star_relay::{Packet, Planet, Star, Universe};

fn sun() -> Star {
    Star { x: 100, y: 60, radius: 8, system_radius: 60 }
}

fn moon(q: u32) -> Planet {
    Planet { star: 0, radius: 3, distance: 40, q, dq: 4, direction: true }
}

fn small(q: u32) -> Universe {
    Universe::from_parts(200, 200, vec![sun()], vec![moon(q)], 0, 0).unwrap()
}

#[test]
fn empty_universe_has_nothing_in_it() {
    let universe = Universe::empty(640, 480);
    assert_eq!(universe.width(), 640);
    assert_eq!(universe.height(), 480);
    assert_eq!(universe.score(), 0);
    assert_eq!(universe.num_stars(), 0);
    assert_eq!(universe.num_planets(), 0);
    assert_eq!(universe.packet(), Packet::new());
    assert_eq!(universe.packet_source(), 0);
    assert_eq!(universe.packet_destination(), 0);
    assert!(!universe.packet_reached_destination());
    assert!(universe.is_well_formed());
    assert!(universe.frame().is_none());
}

#[test]
fn from_parts_keeps_the_parts() {
    let stars = vec![sun(), Star { x: 150, y: 150, radius: 1, system_radius: 2 }];
    let planets = vec![
        moon(1234),
        Planet { star: 1, radius: 1, distance: 50, q: 3599, dq: 14, direction: false },
    ];
    let universe = Universe::from_parts(200, 200, stars.clone(), planets.clone(), 1, 0).unwrap();
    assert_eq!(universe.width(), 200);
    assert_eq!(universe.height(), 200);
    assert_eq!(universe.score(), 0);
    assert_eq!(universe.num_stars(), 2);
    assert_eq!(universe.num_planets(), 2);
    assert_eq!(universe.star(0), Some(stars[0]));
    assert_eq!(universe.star(1), Some(stars[1]));
    assert_eq!(universe.star(2), None);
    assert_eq!(universe.planet(0), Some(planets[0]));
    assert_eq!(universe.planet(1), Some(planets[1]));
    assert_eq!(universe.planet(2), None);
    assert_eq!(universe.packet_source(), 1);
    assert_eq!(universe.packet_destination(), 0);
    assert!(!universe.packet_reached_destination());
    assert_eq!(universe.packet(), Packet::Bound { planet: 1, q: 3599, dq: 12, direction: false });
    assert!(universe.is_well_formed());
}

#[test]
fn from_parts_wants_a_planet_for_source_and_destination() {
    assert!(Universe::from_parts(200, 200, vec![sun()], vec![], 0, 0).is_none());
    assert!(Universe::from_parts(200, 200, vec![sun()], vec![moon(0)], 1, 0).is_none());
    assert!(Universe::from_parts(200, 200, vec![sun()], vec![moon(0)], 0, 1).is_none());
    assert!(Universe::from_parts(200, 200, vec![sun()], vec![moon(0)], 0, 0).is_some());
}

#[test]
fn from_parts_wants_every_planet_to_have_a_star() {
    let stray = Planet { star: 1, ..moon(0) };
    assert!(Universe::from_parts(200, 200, vec![sun()], vec![moon(0), stray], 0, 0).is_none());
    assert!(Universe::from_parts(200, 200, vec![], vec![moon(0)], 0, 0).is_none());
}

#[test]
fn from_parts_wants_phases_inside_a_full_turn() {
    assert!(Universe::from_parts(200, 200, vec![sun()], vec![moon(3599)], 0, 0).is_some());
    assert!(Universe::from_parts(200, 200, vec![sun()], vec![moon(3600)], 0, 0).is_none());
}

#[test]
fn from_parts_wants_orbits_inside_the_window() {
    let wide = |distance: u32| Planet { distance, ..moon(0) };
    assert!(Universe::from_parts(200, 200, vec![sun()], vec![wide(60)], 0, 0).is_some());
    assert!(Universe::from_parts(200, 200, vec![sun()], vec![wide(61)], 0, 0).is_none());
    assert!(Universe::from_parts(160, 200, vec![sun()], vec![wide(60)], 0, 0).is_some());
    assert!(Universe::from_parts(159, 200, vec![sun()], vec![wide(60)], 0, 0).is_none());
    assert!(Universe::from_parts(200, 120, vec![sun()], vec![wide(60)], 0, 0).is_some());
    assert!(Universe::from_parts(200, 119, vec![sun()], vec![wide(60)], 0, 0).is_none());
}

#[test]
fn getters_answer_zero_where_there_is_nothing() {
    let universe = small(0);
    assert_eq!(universe.star_x(0), 100);
    assert_eq!(universe.star_y(0), 60);
    assert_eq!(universe.star_radius(0), 8);
    assert_eq!(universe.star_system_radius(0), 60);
    assert_eq!(universe.planet_radius(0), 3);
    for index in [1usize, 2, usize::MAX] {
        assert_eq!(universe.star_x(index), 0);
        assert_eq!(universe.star_y(index), 0);
        assert_eq!(universe.star_radius(index), 0);
        assert_eq!(universe.star_system_radius(index), 0);
        assert_eq!(universe.planet_radius(index), 0);
        assert_eq!(universe.planet_x(index), 0);
        assert_eq!(universe.planet_y(index), 0);
    }
}

#[test]
fn planet_stands_at_its_distance_along_its_phase() {
    assert_eq!((small(0).planet_x(0), small(0).planet_y(0)), (140_000_000, 60_000_000));
    assert_eq!((small(900).planet_x(0), small(900).planet_y(0)), (100_000_000, 100_000_000));
    assert_eq!((small(1800).planet_x(0), small(1800).planet_y(0)), (60_000_000, 60_000_000));
    assert_eq!((small(2700).planet_x(0), small(2700).planet_y(0)), (100_000_000, 20_000_000));
    assert_eq!(
        (small(300).planet_x(0), small(300).planet_y(0)),
        (100_000_000 + 40 * 866_025, 60_000_000 + 40 * 500_000)
    );
    assert_eq!(
        (small(2100).planet_x(0), small(2100).planet_y(0)),
        (100_000_000 - 40 * 866_025, 60_000_000 - 40 * 500_000)
    );
}

#[test]
fn planet_keeps_its_distance_from_the_star_at_every_phase() {
    for distance in [0u32, 1, 40, 60] {
        for q in 0..3600u32 {
            let planet = Planet { distance, ..moon(q) };
            let universe = Universe::from_parts(200, 200, vec![sun()], vec![planet], 0, 0).unwrap();
            let dx = i128::from(universe.planet_x(0) - 100_000_000);
            let dy = i128::from(universe.planet_y(0) - 60_000_000);
            let d = i128::from(distance);
            let squared = dx * dx + dy * dy;
            assert!(squared <= d * d * 1_000_000_000_000);
            assert!(squared >= d * d * (1_000_000_000_000 - 2_000_000));
            let measured = ((squared as f64).sqrt()) / 1_000_000.0;
            assert!((measured - f64::from(distance)).abs() <= 1.0e-4);
        }
    }
}

#[test]
fn planet_position_follows_the_float_formula() {
    for q in (0..3600u32).step_by(7) {
        let universe = small(q);
        let radians = (f64::from(q) / 10.0).to_radians();
        let x = 100.0 + 40.0 * radians.cos();
        let y = 60.0 + 40.0 * radians.sin();
        assert!((universe.planet_x(0) as f64 / 1_000_000.0 - x).abs() < 1.0e-4);
        assert!((universe.planet_y(0) as f64 / 1_000_000.0 - y).abs() < 1.0e-4);
    }
}

#[test]
fn set_packet_takes_what_fits() {
    let mut universe = small(0);
    let free = Packet::Free { x: 200_000_000, y: 0, dx: 5, dy: -5, last_planet: 77 };
    assert!(universe.packet_fits(free));
    assert!(universe.set_packet(free));
    assert_eq!(universe.packet(), free);
    let bound = Packet::Bound { planet: 0, q: 3599, dq: 9999, direction: true };
    assert!(universe.set_packet(bound));
    assert_eq!(universe.packet(), bound);
    assert!(universe.is_well_formed());
}

#[test]
fn set_packet_refuses_what_does_not_fit() {
    let mut universe = small(0);
    let before = universe.packet();
    for packet in [
        Packet::Free { x: 200_000_001, y: 0, dx: 0, dy: 0, last_planet: 0 },
        Packet::Free { x: -1, y: 0, dx: 0, dy: 0, last_planet: 0 },
        Packet::Free { x: 0, y: 200_000_001, dx: 0, dy: 0, last_planet: 0 },
        Packet::Free { x: 0, y: -1, dx: 0, dy: 0, last_planet: 0 },
        Packet::Bound { planet: 1, q: 0, dq: 0, direction: true },
        Packet::Bound { planet: 0, q: 3600, dq: 0, direction: true },
    ] {
        assert!(!universe.packet_fits(packet));
        assert!(!universe.set_packet(packet));
        assert_eq!(universe.packet(), before);
    }
}

#[test]
fn reset_empties_the_window_and_keeps_the_score() {
    let mut universe = small(0);
    universe.reset();
    assert_eq!(universe.num_stars(), 0);
    assert_eq!(universe.num_planets(), 0);
    assert_eq!(universe.packet(), Packet::new());
    assert_eq!(universe.width(), 200);
    assert_eq!(universe.height(), 200);
    assert!(universe.is_well_formed());
}
