use hsv_mb2::new_frame;
use hsv_mb2::rgb_display::{
    duty_steps, Rgb, RgbDisplay, RgbPulse, RgbPulseFrame, Step, IDLE_US, STEP_US,
};

#[test]
fn duty_steps_round() {
    assert_eq!(duty_steps(0), 0);
    assert_eq!(duty_steps(255), 100);
    assert_eq!(duty_steps(204), 80);
    assert_eq!(duty_steps(51), 20);
    assert_eq!(duty_steps(128), 50);
    assert_eq!(duty_steps(1), 0);
    assert_eq!(duty_steps(2), 1);
}

#[test]
fn frame_is_sorted_with_sentinel_last() {
    for (r, g, b) in [(0, 0, 0), (255, 255, 255), (204, 51, 128), (10, 200, 10), (255, 0, 255)] {
        let f = RgbPulseFrame::new(Rgb { r, g, b });
        assert_eq!(f.items.len(), 4);
        assert_eq!(f.index, 0);
        assert_eq!(f.items[3], RgbPulse { channel: None, duty_steps: 100 });
        for i in 0..3 {
            assert!(f.items[i].duty_steps <= f.items[i + 1].duty_steps);
        }
        let mut lines: Vec<usize> = f.items[..3].iter().map(|p| p.channel.unwrap()).collect();
        lines.sort();
        assert_eq!(lines, vec![0, 1, 2]);
    }
}

#[test]
fn new_frame_matches_frame() {
    let c = Rgb { r: 204, g: 51, b: 128 };
    let a = new_frame(c);
    let b = RgbPulseFrame::new(c);
    assert_eq!(a.items, b.items);
}

#[test]
fn steps_follow_sorted_duties() {
    let mut d = RgbDisplay::new();
    d.set(Rgb { r: 204, g: 51, b: 128 });
    assert!(d.is_scheduled());
    let s = d.step();
    assert_eq!(s, Step { restart: true, off: None, timer_us: 20 * STEP_US });
    assert!(!d.is_scheduled());
    assert_eq!(d.step(), Step { restart: false, off: Some(1), timer_us: 50 * STEP_US });
    assert_eq!(d.step(), Step { restart: false, off: Some(2), timer_us: 80 * STEP_US });
    assert_eq!(d.step(), Step { restart: false, off: Some(0), timer_us: 100 * STEP_US });
    assert_eq!(d.step(), Step { restart: false, off: None, timer_us: IDLE_US });
}

#[test]
fn idle_without_frames() {
    let mut d = RgbDisplay::new();
    assert!(!d.is_scheduled());
    for _ in 0..3 {
        assert_eq!(d.step(), Step { restart: false, off: None, timer_us: IDLE_US });
    }
}

#[test]
fn pending_frame_waits_for_frame_end() {
    let mut d = RgbDisplay::new();
    d.set(Rgb { r: 255, g: 0, b: 0 });
    assert!(d.step().restart);
    d.set(Rgb { r: 0, g: 0, b: 255 });
    // the rest of the red frame plays first
    assert!(!d.step().restart);
    assert!(!d.step().restart);
    let last = d.step();
    assert_eq!(last, Step { restart: false, off: Some(0), timer_us: 100 * STEP_US });
    let first = d.step();
    assert!(first.restart);
    assert_eq!(first.off, None);
}

#[test]
fn latest_submit_wins() {
    let mut d = RgbDisplay::new();
    d.set(Rgb { r: 255, g: 0, b: 0 });
    d.set(Rgb { r: 0, g: 255, b: 255 });
    assert_eq!(d.step(), Step { restart: true, off: None, timer_us: 0 });
    assert_eq!(d.current_pin, Some(0));
}
