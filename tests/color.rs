use hsv_mb2::color::{
    level_from_sample, Display, HsvColor, Rotation, State, DISPLAY_H, DISPLAY_S, DISPLAY_V,
    LEVEL_MAX,
};
use hsv_mb2::rgb_display::{Rgb, RgbPulseFrame};

#[test]
fn next_cycles_in_three_steps() {
    for s in [State::H, State::S, State::V] {
        assert_eq!(s.next().next().next(), s);
        assert_eq!(s.prev().prev().prev(), s);
        assert_eq!(s.next().prev(), s);
        assert_eq!(s.prev().next(), s);
    }
}

#[test]
fn next_and_prev_order() {
    assert_eq!(State::H.next(), State::S);
    assert_eq!(State::S.next(), State::V);
    assert_eq!(State::V.next(), State::H);
    assert_eq!(State::H.prev(), State::V);
    assert_eq!(State::V.prev(), State::S);
    assert_eq!(State::S.prev(), State::H);
}

#[test]
fn rotate_moves_only_the_selector() {
    let mut c = HsvColor::new();
    c.set_current(100);
    c.rotate(Rotation::Next);
    assert_eq!(c.state, State::S);
    c.rotate(Rotation::Next);
    assert_eq!(c.state, State::V);
    c.rotate(Rotation::Next);
    assert_eq!(c.state, State::H);
    c.rotate(Rotation::Prev);
    assert_eq!(c.state, State::V);
    assert_eq!((c.h, c.s, c.v), (100, 0, 0));
}

#[test]
fn boot_state_is_black_hue() {
    let c = HsvColor::new();
    assert_eq!(c, HsvColor { h: 0, s: 0, v: 0, state: State::H });
    assert_eq!(HsvColor::default(), c);
    assert_eq!(State::default(), State::H);
}

#[test]
fn set_current_writes_active_channel() {
    let mut c = HsvColor::new();
    c.set_current(10);
    c.rotate(Rotation::Next);
    c.set_current(20);
    c.rotate(Rotation::Next);
    c.set_current(LEVEL_MAX);
    assert_eq!((c.h, c.s, c.v), (10, 20, LEVEL_MAX));
}

#[test]
fn with_maps_active_channel() {
    let mut c = HsvColor::new();
    c.rotate(Rotation::Prev);
    c.set_current(7);
    c.with(|x| x * 3);
    assert_eq!((c.h, c.s, c.v), (0, 0, 21));
}

#[test]
fn display_follows_channel() {
    let mut c = HsvColor::new();
    assert_eq!(c.to_display(), DISPLAY_H);
    c.rotate(Rotation::Next);
    assert_eq!(c.to_display(), DISPLAY_S);
    c.rotate(Rotation::Next);
    assert_eq!(c.to_display(), DISPLAY_V);
    let d: Display = State::S.into();
    assert_eq!(d, DISPLAY_S);
    assert_ne!(DISPLAY_H, DISPLAY_V);
}

#[test]
fn sample_is_clamped() {
    assert_eq!(level_from_sample(-5), 0);
    assert_eq!(level_from_sample(0), 0);
    assert_eq!(level_from_sample(1234), 1234);
    assert_eq!(level_from_sample(0x3FFF), LEVEL_MAX);
    assert_eq!(level_from_sample(i16::MAX), LEVEL_MAX);
}

fn rgb_of(c: &HsvColor) -> Rgb {
    let max = LEVEL_MAX as f64;
    let (r, g, b) = hsv::hsv_to_rgb(
        c.h as f64 / max * 360.0,
        c.s as f64 / max,
        c.v as f64 / max,
    );
    Rgb { r, g, b }
}

#[test]
fn half_hue_at_zero_value_is_black() {
    let mut c = HsvColor::new();
    c.set_current(LEVEL_MAX / 2 + 1);
    assert_eq!((c.h, c.s, c.v), (8192, 0, 0));
    let rgb = rgb_of(&c);
    assert_eq!(rgb, Rgb { r: 0, g: 0, b: 0 });
    let f = RgbPulseFrame::new(rgb);
    for p in &f.items[..3] {
        assert_eq!(p.duty_steps, 0);
    }
}

#[test]
fn gray_and_black_conversions() {
    let mut c = HsvColor::new();
    c.set_current(5000);
    c.rotate(Rotation::Prev);
    c.set_current(LEVEL_MAX);
    let gray = rgb_of(&c);
    assert_eq!(gray, Rgb { r: 255, g: 255, b: 255 });
    assert_eq!(rgb_of(&c), gray);
    c.set_current(0);
    assert_eq!(rgb_of(&c), Rgb { r: 0, g: 0, b: 0 });
}
