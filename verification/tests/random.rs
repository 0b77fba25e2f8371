use star_relay::random::{draw, settle_draw};
use star_relay::RandomSource;

struct Fixed(u32);

impl RandomSource for Fixed {
    fn uniform_int(&mut self, _low: u32, _high: u32) -> u32 {
        self.0
    }
}

struct Asked(Vec<(u32, u32)>);

impl RandomSource for Asked {
    fn uniform_int(&mut self, low: u32, high: u32) -> u32 {
        self.0.push((low, high));
        low
    }
}

#[test]
fn settle_draw_keeps_what_is_in_range() {
    assert_eq!(settle_draw(3, 5, 3), 3);
    assert_eq!(settle_draw(3, 5, 4), 4);
    assert_eq!(settle_draw(0, u32::MAX, u32::MAX - 1), u32::MAX - 1);
}

#[test]
fn settle_draw_falls_back_to_the_low_end() {
    assert_eq!(settle_draw(3, 5, 5), 3);
    assert_eq!(settle_draw(3, 5, 2), 3);
    assert_eq!(settle_draw(3, 5, u32::MAX), 3);
    assert_eq!(settle_draw(3, 5, 0), 3);
}

#[test]
fn settle_draw_gives_the_only_value_of_an_empty_range() {
    assert_eq!(settle_draw(7, 7, 7), 7);
    assert_eq!(settle_draw(7, 7, 9), 7);
    assert_eq!(settle_draw(7, 3, 5), 7);
    assert_eq!(settle_draw(0, 0, 0), 0);
}

#[test]
fn draw_hands_the_range_to_the_source() {
    let mut source = Asked(Vec::new());
    assert_eq!(draw(&mut source, 150, 300), 150);
    assert_eq!(draw(&mut source, 8, 8), 8);
    assert_eq!(source.0, vec![(150, 300), (8, 8)]);
}

#[test]
fn draw_settles_what_the_source_answers() {
    assert_eq!(draw(&mut Fixed(4), 3, 5), 4);
    assert_eq!(draw(&mut Fixed(99), 3, 5), 3);
    assert_eq!(draw(&mut Fixed(0), 3, 5), 3);
    assert_eq!(draw(&mut Fixed(12), 12, 12), 12);
}
