use star_relay::params::SCALE;
use star_relay::trig::{cosine, isqrt, sine, SINE_TABLE};

#[test]
fn isqrt_rounds_down() {
    assert_eq!(isqrt(0), 0);
    assert_eq!(isqrt(1), 1);
    assert_eq!(isqrt(2), 1);
    assert_eq!(isqrt(3), 1);
    assert_eq!(isqrt(4), 2);
    assert_eq!(isqrt(99), 9);
    assert_eq!(isqrt(100), 10);
    assert_eq!(isqrt(1_000_000_000_000), 1_000_000);
    assert_eq!(isqrt(999_999_999_999), 999_999);
    assert_eq!(isqrt(u64::MAX), 4_294_967_295);
    assert_eq!(isqrt(4_294_967_295 * 4_294_967_295), 4_294_967_295);
    assert_eq!(isqrt(4_294_967_295 * 4_294_967_295 - 1), 4_294_967_294);
}

#[test]
fn isqrt_brackets_every_small_number() {
    for n in 0..20_000u64 {
        let r = isqrt(n);
        assert!(r * r <= n && n < (r + 1) * (r + 1), "n = {}", n);
    }
}

#[test]
fn sine_table_holds_rounded_sines() {
    assert_eq!(SINE_TABLE.len(), 451);
    assert_eq!(SINE_TABLE[0], 0);
    assert_eq!(SINE_TABLE[1], 1745);
    assert_eq!(SINE_TABLE[300], 500_000);
    assert_eq!(SINE_TABLE[450], 707_107);
    for (tenths, entry) in SINE_TABLE.iter().enumerate() {
        let exact = (tenths as f64 / 10.0).to_radians().sin() * 1_000_000.0;
        assert_eq!(*entry, exact.round() as u32, "entry {}", tenths);
    }
}

#[test]
fn axes_are_exact() {
    assert_eq!((cosine(0), sine(0)), (SCALE, 0));
    assert_eq!((cosine(900), sine(900)), (0, SCALE));
    assert_eq!((cosine(1800), sine(1800)), (-SCALE, 0));
    assert_eq!((cosine(2700), sine(2700)), (0, -SCALE));
}

#[test]
fn known_angles() {
    assert_eq!(sine(300), 500_000);
    assert_eq!(cosine(300), 866_025);
    assert_eq!(sine(600), 866_025);
    assert_eq!(cosine(600), 500_000);
    assert_eq!(sine(450), 707_107);
    assert_eq!(cosine(450), 707_106);
    assert_eq!(sine(1500), 500_000);
    assert_eq!(cosine(1500), -866_025);
    assert_eq!(sine(2100), -500_000);
    assert_eq!(cosine(2100), -866_025);
    assert_eq!(sine(3300), -500_000);
    assert_eq!(cosine(3300), 866_025);
    assert_eq!(sine(1), 1745);
    assert_eq!(cosine(899), 1745);
}

#[test]
fn sine_and_cosine_follow_the_float_functions() {
    for angle in 0..3600u32 {
        let radians = (f64::from(angle) / 10.0).to_radians();
        let s = sine(angle) as f64 / 1_000_000.0;
        let c = cosine(angle) as f64 / 1_000_000.0;
        assert!((s - radians.sin()).abs() < 2.0e-6, "sine of {}", angle);
        assert!((c - radians.cos()).abs() < 2.0e-6, "cosine of {}", angle);
    }
}

#[test]
fn pair_is_a_unit_vector_rounded_inwards() {
    for angle in 0..3600u32 {
        let s = sine(angle);
        let c = cosine(angle);
        assert!(-SCALE <= s && s <= SCALE);
        assert!(-SCALE <= c && c <= SCALE);
        let norm = c * c + s * s;
        assert!(norm <= SCALE * SCALE, "angle {}", angle);
        assert!(norm > SCALE * SCALE - 2 * SCALE, "angle {}", angle);
    }
}

#[test]
fn angles_are_taken_modulo_a_full_turn() {
    for angle in [0u32, 1, 450, 899, 900, 1234, 3599] {
        assert_eq!(sine(angle + 3600), sine(angle));
        assert_eq!(cosine(angle + 7200), cosine(angle));
    }
    assert_eq!(sine(u32::MAX), sine(u32::MAX % 3600));
}

#[test]
fn signs_follow_the_quarter() {
    for angle in 1..900u32 {
        assert!(sine(angle) > 0 && cosine(angle) > 0);
        assert!(sine(angle + 900) > 0 && cosine(angle + 900) < 0);
        assert!(sine(angle + 1800) < 0 && cosine(angle + 1800) < 0);
        assert!(sine(angle + 2700) < 0 && cosine(angle + 2700) > 0);
    }
}
