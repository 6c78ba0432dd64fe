use security_camera::timelapse::TimelapseState;

#[test]
fn rotates_once_at_top_of_hour() {
    let mut t = TimelapseState::new();
    assert!(!t.tick(59, 59));
    assert!(t.tick(0, 0));
    // A second tick still reading HH:00:00 does not rotate again.
    assert!(!t.tick(0, 0));
}

#[test]
fn guard_rearms_after_one_tick() {
    let mut t = TimelapseState::new();
    assert!(t.tick(0, 0));
    assert!(!t.tick(0, 1));
    assert!(!t.tick(30, 0));
    // The next hour boundary rotates again.
    assert!(t.tick(0, 0));
}

#[test]
fn never_rotates_away_from_boundary() {
    let mut t = TimelapseState::new();
    for m in 0..60u32 {
        for s in 0..60u32 {
            if m != 0 || s != 0 {
                assert!(!t.tick(m, s));
            }
        }
    }
}
