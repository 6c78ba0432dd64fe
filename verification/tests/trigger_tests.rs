use security_camera::trigger::{SessionDirective, TriggerState};

#[test]
fn activation_needs_both_thresholds() {
    // trigger_frames = 2, trigger_distance = 5.0 pixels = 5000 milli.
    let mut t = TriggerState::new();
    let (_, act) = t.observe(2, 5000, 100, 100, 100, 0);
    assert!(!act); // frames = 1
    let (_, act) = t.observe(2, 5000, 101, 100, 100, 100);
    assert!(!act); // frames = 2, distance = 1000
    let (_, act) = t.observe(2, 5000, 110, 100, 100, 200);
    assert!(act); // frames = 3 > 2, distance = 10000 > 5000
    assert!(t.active);
    assert_eq!(t.frames, 3);
    assert_eq!(t.distance_milli, 10000);
}

#[test]
fn no_activation_when_distance_too_small() {
    let mut t = TriggerState::new();
    for i in 0..10 {
        let (_, act) = t.observe(2, 5000, 100, 100, 100, i * 100);
        assert!(!act); // never moved: distance stays 0
    }
    assert!(!t.active);
}

#[test]
fn no_activation_when_frames_too_few() {
    let mut t = TriggerState::new();
    let (_, act) = t.observe(2, 0, 0, 0, 1, 0);
    assert!(!act);
    let (_, act) = t.observe(2, 0, 100, 0, 1, 50);
    assert!(!act); // frames = 2 is not > 2
    let (_, act) = t.observe(2, 0, 200, 0, 1, 90);
    assert!(act);
}

#[test]
fn diagonal_distance_is_euclidean() {
    let mut t = TriggerState::new();
    t.observe(0, 0, 0, 0, 1, 0);
    t.observe(10, u64::MAX, 3, 4, 1, 10);
    assert_eq!(t.distance_milli, 5000); // 3-4-5 triangle
}

#[test]
fn deactivation_exactly_after_timeout() {
    let mut t = TriggerState::new();
    let (_, act) = t.observe(0, 0, 100, 100, 100, 900);
    assert!(!act); // cumulative distance still 0, not strictly above 0
    let (_, act) = t.observe(0, 0, 101, 100, 100, 1000);
    assert!(act);
    // 30000 ms later: not yet past the timeout.
    assert_eq!(t.maintain(31000), SessionDirective::Forward);
    assert!(t.active);
    // One millisecond past: session ends, best area resets.
    assert_eq!(t.maintain(31001), SessionDirective::EndSession);
    assert!(!t.active);
    assert_eq!(t.best_area, 0);
    // Inactive again: frames are stashed.
    assert_eq!(t.maintain(31002), SessionDirective::Stash);
}

#[test]
fn qualifying_frame_refreshes_timeout() {
    let mut t = TriggerState::new();
    t.observe(0, 0, 100, 100, 100, 0);
    t.observe(0, 0, 102, 100, 100, 10);
    assert!(t.active);
    t.observe(0, 0, 100, 100, 100, 29000);
    assert_eq!(t.maintain(59000), SessionDirective::Forward);
    assert_eq!(t.maintain(59001), SessionDirective::EndSession);
}

#[test]
fn best_area_tracks_strict_maximum() {
    let mut t = TriggerState::new();
    let (nb, _) = t.observe(0, 0, 0, 0, 50, 0);
    assert!(nb);
    let (nb, _) = t.observe(0, 0, 0, 0, 50, 1);
    assert!(!nb); // a tie is not a new best
    let (nb, _) = t.observe(0, 0, 0, 0, 60, 2);
    assert!(nb);
    let (nb, _) = t.observe(0, 0, 0, 0, 10, 3);
    assert!(!nb);
    assert_eq!(t.best_area, 60);
}

#[test]
fn tick_reset_clears_window_evidence() {
    let mut t = TriggerState::new();
    t.observe(10, 10000, 100, 100, 40, 0);
    t.observe(10, 10000, 103, 104, 40, 100);
    let diag = t.tick_reset();
    assert_eq!(diag, Some((2, 5000)));
    assert_eq!(t.frames, 0);
    assert_eq!(t.distance_milli, 0);
    assert!(t.last_center.is_none());
    // Evidence does not carry across the tick: accumulation restarts.
    let (_, act) = t.observe(2, 0, 100, 100, 40, 200);
    assert!(!act);
    assert_eq!(t.frames, 1);
}

#[test]
fn tick_reset_reports_nothing_while_active() {
    let mut t = TriggerState::new();
    t.observe(0, 0, 100, 100, 40, 0);
    t.observe(0, 0, 101, 101, 40, 10);
    assert!(t.active);
    assert_eq!(t.tick_reset(), None);
}

#[test]
fn degenerate_negative_area_never_best() {
    let mut t = TriggerState::new();
    let (nb, _) = t.observe(0, 0, 0, 0, -100, 0);
    assert!(!nb); // initial best of 0 beats a degenerate box
    assert_eq!(t.best_area, 0);
}
