use hsv_mb2::util::{debounce, DEBOUNCE_TIME};

#[test]
fn debounce_runs_when_timer_idle() {
    let mut ran = 0;
    let r = debounce(0, || {
        ran += 1;
        7
    });
    assert_eq!(r, Some((7, DEBOUNCE_TIME)));
    assert_eq!(ran, 1);
    assert_eq!(DEBOUNCE_TIME, 100_000);
}

#[test]
fn debounce_suppresses_within_window() {
    let mut ran = 0;
    // timer counting: first edge accepted, the second arrives inside the window
    let readings = [0u32, 40_000];
    for t in readings {
        if let Some((_, rearm)) = debounce(t, || ran += 1) {
            assert_eq!(rearm, DEBOUNCE_TIME);
        }
    }
    assert_eq!(ran, 1);
}

#[test]
fn debounce_accepts_after_window() {
    let mut ran = 0;
    for t in [0u32, 0] {
        let _ = debounce(t, || ran += 1);
    }
    assert_eq!(ran, 2);
}
