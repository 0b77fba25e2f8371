use star_relay::{Packet, Planet, Star, Universe};

/// A window of 200 by 200 pixels with one planet in its middle, at (100, 100).
fn centred() -> Universe {
    let stars = vec![Star { x: 100, y: 60, radius: 8, system_radius: 60 }];
    let planets = vec![Planet { star: 0, radius: 3, distance: 40, q: 900, dq: 4, direction: true }];
    let universe = Universe::from_parts(200, 200, stars, planets, 0, 0).unwrap();
    assert_eq!((universe.planet_x(0), universe.planet_y(0)), (100_000_000, 100_000_000));
    universe
}

fn aimed(q: u32) -> Universe {
    let mut universe = centred();
    assert!(universe.set_packet(Packet::Bound { planet: 0, q, dq: 22, direction: true }));
    universe
}

#[test]
fn flight_straight_up_ends_at_the_top_wall() {
    let universe = centred();
    assert_eq!(universe.packet(), Packet::Bound { planet: 0, q: 900, dq: 22, direction: true });
    assert_eq!(universe.packet_end_x(), universe.planet_x(0));
    assert_eq!(universe.packet_end_x(), 100_000_000);
    assert_eq!(universe.packet_end_y(), 0);
}

#[test]
fn flights_along_the_axes_end_at_the_walls() {
    assert_eq!((aimed(0).packet_end_x(), aimed(0).packet_end_y()), (200_000_000, 100_000_000));
    assert_eq!((aimed(900).packet_end_x(), aimed(900).packet_end_y()), (100_000_000, 0));
    assert_eq!((aimed(1800).packet_end_x(), aimed(1800).packet_end_y()), (0, 100_000_000));
    assert_eq!(
        (aimed(2700).packet_end_x(), aimed(2700).packet_end_y()),
        (100_000_000, 200_000_000)
    );
}

#[test]
fn flights_between_the_axes_end_where_the_tangent_says() {
    let end = |q: u32| (aimed(q).packet_end_x(), aimed(q).packet_end_y());
    assert_eq!(end(450), (199_999_858, 0));
    assert_eq!(end(300), (200_000_000, 42_264_947));
    assert_eq!(end(600), (157_735_053, 0));
    assert_eq!(end(1500), (0, 42_264_947));
    assert_eq!(end(2100), (0, 157_735_053));
    assert_eq!(end(3300), (200_000_000, 157_735_053));
    assert_eq!(end(1), (200_000_000, 99_825_500));
    assert_eq!(end(899), (100_174_500, 0));
    assert_eq!(end(3599), (200_000_000, 100_174_500));
    assert_eq!(end(1799), (0, 99_825_500));
    assert_eq!(end(1801), (0, 100_174_500));
}

#[test]
fn flights_end_on_the_wall_that_the_float_formula_names() {
    for q in 0..3600u32 {
        let universe = aimed(q);
        let x = universe.packet_end_x() as f64 / 1_000_000.0;
        let y = universe.packet_end_y() as f64 / 1_000_000.0;
        assert!((0.0..=200.0).contains(&x) && (0.0..=200.0).contains(&y));
        // From the middle of a square window the ray ends at distance 100
        // from the middle along one axis, and at 100 times the tangent or
        // cotangent along the other, cut off at the wall.
        let radians = (f64::from(q) / 10.0).to_radians();
        let (c, s) = (radians.cos(), radians.sin());
        if q % 900 != 0 {
            let expected_x = (100.0 + 100.0 * c / s.abs()).clamp(0.0, 200.0);
            let expected_y = (100.0 - 100.0 * s / c.abs()).clamp(0.0, 200.0);
            assert!((x - expected_x).abs() < 0.05, "x at {}: {} for {}", q, x, expected_x);
            assert!((y - expected_y).abs() < 0.05, "y at {}: {} for {}", q, y, expected_y);
        }
    }
}

#[test]
fn free_packet_has_no_flight_to_show() {
    let mut universe = centred();
    universe.free_packet();
    assert_eq!(universe.packet_end_x(), 0);
    assert_eq!(universe.packet_end_y(), 0);
}

#[test]
fn packet_position_is_zero_while_bound() {
    let universe = centred();
    assert_eq!(universe.packet_x(), 0);
    assert_eq!(universe.packet_y(), 0);
}

#[test]
fn packet_position_is_that_of_the_free_packet() {
    let mut universe = centred();
    let free = Packet::Free { x: 12_345_678, y: 87_654_321, dx: 1, dy: 2, last_planet: 0 };
    assert!(universe.set_packet(free));
    assert_eq!(universe.packet_x(), 12_345_678);
    assert_eq!(universe.packet_y(), 87_654_321);
}

#[test]
fn released_packet_starts_at_its_planet() {
    let mut universe = aimed(300);
    universe.free_packet();
    assert_eq!(
        universe.packet(),
        Packet::Free {
            x: 100_000_000,
            y: 100_000_000,
            dx: 13 * 866_025,
            dy: -13 * 500_000,
            last_planet: 0
        }
    );
    assert_eq!(universe.packet_x(), 100_000_000);
    assert_eq!(universe.packet_y(), 100_000_000);
    assert!(universe.is_well_formed());
}

#[test]
fn released_packet_flies_under_its_angle() {
    let velocity = |q: u32| {
        let mut universe = aimed(q);
        universe.free_packet();
        match universe.packet() {
            Packet::Free { dx, dy, .. } => (dx, dy),
            Packet::Bound { .. } => panic!("still bound"),
        }
    };
    assert_eq!(velocity(0), (13_000_000, 0));
    assert_eq!(velocity(900), (0, -13_000_000));
    assert_eq!(velocity(1800), (-13_000_000, 0));
    assert_eq!(velocity(2700), (0, 13_000_000));
    assert_eq!(velocity(450), (13 * 707_106, -13 * 707_107));
    assert_eq!(velocity(2100), (-13 * 866_025, 13 * 500_000));
}

#[test]
fn releasing_a_free_packet_changes_nothing() {
    let mut universe = centred();
    let free = Packet::Free { x: 5, y: 6, dx: 7, dy: 8, last_planet: 9 };
    assert!(universe.set_packet(free));
    universe.free_packet();
    assert_eq!(universe.packet(), free);
}

#[test]
fn released_packet_heads_for_the_shown_end_of_its_flight() {
    for q in 0..3600u32 {
        let mut universe = aimed(q);
        let (end_x, end_y) = (universe.packet_end_x(), universe.packet_end_y());
        universe.free_packet();
        if let Packet::Free { x, y, dx, dy, .. } = universe.packet() {
            assert!(dx <= 0 || end_x >= x);
            assert!(dx >= 0 || end_x <= x);
            assert!(dy <= 0 || end_y >= y);
            assert!(dy >= 0 || end_y <= y);
        } else {
            panic!("still bound");
        }
    }
}
