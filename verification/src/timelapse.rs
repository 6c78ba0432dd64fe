//! Timelapse rotator: on each one-second tick the current frame is appended
//! to the open timelapse file; when local time crosses the top of an hour the
//! file is rotated exactly once, guarded by a one-tick flag so that a second
//! tick inside the same minute boundary does not rotate again.

use vstd::prelude::*;

verus! {

/// State of the timelapse output between ticks.
pub struct TimelapseState {
    /// Set by the tick that rotated, cleared by the next tick: while set, a
    /// repeated top-of-hour reading does not rotate again.
    pub just_rotated: bool,
}

/// Whether a tick at local time `minute:second` past the hour rotates: only
/// at the exact top of an hour, and only when the previous tick did not
/// already rotate.
pub open spec fn rotates(t: TimelapseState, minute: int, second: int) -> bool {
    minute == 0 && second == 0 && !t.just_rotated
}

/// The guard after a tick: set exactly when this tick rotated.
pub open spec fn tick_step(t: TimelapseState, minute: int, second: int) -> TimelapseState {
    TimelapseState { just_rotated: rotates(t, minute, second) }
}

impl TimelapseState {
    /// The initial state: the first top-of-hour reading may rotate.
    pub fn new() -> (t: TimelapseState)
        ensures
            !t.just_rotated,
    {
        TimelapseState { just_rotated: false }
    }

    /// Accounts one one-second tick at local wall-clock `minute:second` past
    /// the hour and decides whether to rotate the output file.
    pub fn tick(&mut self, minute: u32, second: u32) -> (rotate: bool)
        ensures
            rotate == rotates(*old(self), minute as int, second as int),
            *final(self) == tick_step(*old(self), minute as int, second as int),
    {
        let rotate: bool = second == 0 && minute == 0 && !self.just_rotated;
        self.just_rotated = rotate;
        rotate
    }
}

/// A tick at the top of an hour rotates exactly once: the tick that finds
/// the guard clear rotates and sets it, and a second tick still inside the
/// same `HH:00:00` reading finds the guard set and does not rotate.
pub proof fn lemma_no_double_rotation(t: TimelapseState)
    requires
        !t.just_rotated,
    ensures
        rotates(t, 0, 0),
        !rotates(tick_step(t, 0, 0), 0, 0),
{
}

/// A tick away from the top of an hour never rotates and clears the guard,
/// so the next top-of-hour crossing rotates again.
pub proof fn lemma_rotation_rearms(t: TimelapseState, minute: int, second: int)
    requires
        minute != 0 || second != 0,
    ensures
        !rotates(t, minute, second),
        rotates(tick_step(t, minute, second), 0, 0),
{
}

} // verus!
