//! Per-camera frame pipeline: the decision core of the capture loop. Each
//! processed frame — an optional detection plus one clock sample — yields
//! the exact set of actions the surrounding loop must perform: publish a
//! best-frame message, open a recording session (draining the pre-event
//! buffer into it and writing the first photo), forward or stash the frame,
//! end the session, and append or rotate the timelapse.
//!
//! The loop applies the actions of one frame in this order: `publish_best`
//! goes to the session that was open before the frame, then `start` opens
//! the new session, then `directive` handles the current frame, then the
//! tick and timelapse actions run.

use vstd::prelude::*;
use crate::clock::ClockSample;
use crate::config::Camera;
use crate::geometry::{boundary_view, inside_boundary, inside_polygon};
use crate::names::{
    first_photo_filename,
    first_photo_path,
    timelapse_filename,
    timelapse_path,
    video_filename,
    video_path,
};
use crate::timelapse::{rotates, tick_step, TimelapseState};
use crate::trigger::{
    center_in_range,
    maintain_directive,
    maintain_step,
    observe_activates,
    observe_step,
    tick_diagnostic,
    tick_reset_step,
    Detection,
    SessionDirective,
    TriggerState,
};

verus! {

/// Milliseconds a tick window must exceed before the per-second accounting
/// runs.
pub const TICK_WINDOW_MS: u64 = 1000;

/// The half of `w` rounded toward zero, as machine signed division
/// computes it.
pub open spec fn half_trunc(w: int) -> int {
    if w >= 0 {
        w / 2
    } else {
        -((-w) / 2)
    }
}

/// The center of a detection box; width and height may be negative, and the
/// halving then rounds toward zero.
pub open spec fn center_x(d: Detection) -> int {
    d.x + half_trunc(d.width as int)
}

pub open spec fn center_y(d: Detection) -> int {
    d.y + half_trunc(d.height as int)
}

/// The signed area of a detection box, negative for degenerate boxes.
pub open spec fn area_of(d: Detection) -> int {
    (d.width as int) * (d.height as int)
}

/// A frame qualifies when it carries a detection whose center lies inside
/// the configured boundary.
pub open spec fn qualifies(cam: Camera, det: Option<Detection>) -> bool {
    match det {
        Some(d) => inside_boundary(boundary_view(cam.boundary), center_x(d), center_y(d)),
        None => false,
    }
}

/// `a + 1` capped at the largest `u32`.
pub open spec fn sat_inc_u32(a: int) -> int {
    if a + 1 > u32::MAX {
        u32::MAX as int
    } else {
        a + 1
    }
}

/// The names a new recording session writes to.
pub struct SessionStart {
    pub video: String,
    pub first_photo: String,
}

/// What a one-second tick reports: the frames counted in the window and the
/// window's length (the loop derives its frame-rate measurement from them),
/// and the discarded trigger evidence when the window failed to trigger.
pub struct TickReport {
    pub window_frames: u32,
    pub window_ms: u64,
    pub failed_trigger: Option<(i32, u64)>,
}

/// Everything the capture loop must do for one processed frame.
pub struct FrameActions {
    /// The detection's center was inside the boundary.
    pub qualifying: bool,
    /// Send a best-frame message (current frame, current stamp) to the
    /// session that was open before this frame.
    pub publish_best: bool,
    /// Open a new session: drain the ring buffer into it oldest-first,
    /// write the first photo, and call the start notifier.
    pub start: Option<SessionStart>,
    /// Forward the frame, end the session, or stash the frame.
    pub directive: SessionDirective,
    /// The one-second window closed with this frame.
    pub tick: Option<TickReport>,
    /// Append the current frame to the timelapse file.
    pub timelapse_write: bool,
    /// Close the timelapse file, call the rotation notifier, and reopen
    /// under this new name.
    pub timelapse_rotate: Option<String>,
}

/// The per-camera pipeline state between frames.
pub struct Pipeline {
    pub camera: Camera,
    pub trigger: TriggerState,
    pub timelapse: TimelapseState,
    /// When the current one-second window opened.
    pub tick_ms: u64,
    /// Frames processed in the current window.
    pub window_frames: u32,
    /// Whether a session channel exists — it stays open after the session
    /// ends, and messages to an ended session are ignored by its worker.
    pub session_open: bool,
}

/// The trigger state after the detection phase of one frame.
pub open spec fn observed_trigger(p: Pipeline, det: Option<Detection>, now_ms: int) -> TriggerState {
    match det {
        Some(d) => if qualifies(p.camera, det) {
            observe_step(
                p.trigger,
                p.camera.trigger_frames as int,
                p.camera.trigger_distance_milli as int,
                center_x(d),
                center_y(d),
                area_of(d),
                now_ms,
            )
        } else {
            p.trigger
        },
        None => p.trigger,
    }
}

/// Whether this frame activates the trigger and opens a session.
pub open spec fn session_starts(p: Pipeline, det: Option<Detection>) -> bool {
    match det {
        Some(d) => qualifies(p.camera, det) && observe_activates(
            p.trigger,
            p.camera.trigger_frames as int,
            p.camera.trigger_distance_milli as int,
            center_x(d),
            center_y(d),
        ),
        None => false,
    }
}

/// Whether this frame publishes a best-frame message: it qualifies, its
/// area strictly exceeds the best seen, and a session channel exists.
pub open spec fn publishes_best(p: Pipeline, det: Option<Detection>) -> bool {
    match det {
        Some(d) => qualifies(p.camera, det) && area_of(d) > p.trigger.best_area
            && p.session_open,
        None => false,
    }
}

/// Whether this frame closes the one-second window.
pub open spec fn tick_fires(p: Pipeline, now_ms: int) -> bool {
    (if now_ms >= p.tick_ms {
        now_ms - p.tick_ms
    } else {
        0
    }) > TICK_WINDOW_MS
}

proof fn lemma_abs_mul_bound(a: int, b: int, m: int)
    by (nonlinear_arith)
    requires
        -m <= a <= m,
        -m <= b <= m,
        0 <= m,
    ensures
        -(m * m) <= a * b <= m * m,
{
}

/// The half of `w` rounded toward zero.
fn half_toward_zero(w: i64) -> (r: i64)
    requires
        -0x80000000 <= w <= 0x7fffffff,
    ensures
        r == half_trunc(w as int),
        -0x40000000 <= r <= 0x40000000,
{
    if w >= 0 {
        ((w as u64) / 2) as i64
    } else {
        -((((-w) as u64) / 2) as i64)
    }
}

impl Pipeline {
    pub open spec fn wf(self) -> bool {
        self.camera.wf() && self.trigger.wf()
    }

    /// A fresh pipeline for one camera, its one-second window opening at
    /// `now_ms`.
    pub fn new(camera: Camera, now_ms: u64) -> (p: Pipeline)
        requires
            camera.wf(),
        ensures
            p.wf(),
            p.camera == camera,
            p.trigger == crate::trigger::initial_trigger(),
            !p.timelapse.just_rotated,
            p.tick_ms == now_ms,
            p.window_frames == 0,
            !p.session_open,
    {
        Pipeline {
            camera,
            trigger: TriggerState::new(),
            timelapse: TimelapseState::new(),
            tick_ms: now_ms,
            window_frames: 0,
            session_open: false,
        }
    }

    /// Processes one frame: accounts the optional detection, decides session
    /// start and end, and closes the one-second window when it has elapsed.
    pub fn process_frame(&mut self, det: Option<Detection>, clock: &ClockSample) -> (r:
        FrameActions)
        requires
            old(self).wf(),
            clock.wf(),
        ensures
            final(self).wf(),
            final(self).camera == old(self).camera,
            r.qualifying == qualifies(old(self).camera, det),
            r.publish_best == publishes_best(*old(self), det),
            (r.start is Some) == session_starts(*old(self), det),
            r.start matches Some(ss) ==> {
                &&& ss.video@ == video_path(old(self).camera.name@, clock.stamp@)
                &&& ss.first_photo@ == first_photo_path(old(self).camera.name@, clock.stamp@)
            },
            final(self).session_open == (old(self).session_open || session_starts(
                *old(self),
                det,
            )),
            ({
                let t1 = observed_trigger(*old(self), det, clock.now_ms as int);
                let t2 = maintain_step(t1, clock.now_ms as int);
                let fires = tick_fires(*old(self), clock.now_ms as int);
                &&& r.directive == maintain_directive(t1, clock.now_ms as int)
                &&& final(self).trigger == if fires {
                    tick_reset_step(t2)
                } else {
                    t2
                }
                &&& (r.tick is Some) == fires
                &&& r.tick matches Some(tr) ==> {
                    &&& tr.window_frames as int == sat_inc_u32(old(self).window_frames as int)
                    &&& tr.window_ms as int == (if clock.now_ms >= old(self).tick_ms {
                        clock.now_ms - old(self).tick_ms
                    } else {
                        0
                    })
                    &&& tr.failed_trigger == tick_diagnostic(t2)
                }
                &&& final(self).tick_ms == if fires {
                    clock.now_ms
                } else {
                    old(self).tick_ms
                }
                &&& final(self).window_frames as int == if fires {
                    0
                } else {
                    sat_inc_u32(old(self).window_frames as int)
                }
                &&& r.timelapse_write == (fires && old(self).camera.timelapse)
                &&& (r.timelapse_rotate is Some) == (fires && old(self).camera.timelapse
                    && rotates(old(self).timelapse, clock.minute as int, clock.second as int))
                &&& final(self).timelapse == if fires && old(self).camera.timelapse {
                    tick_step(old(self).timelapse, clock.minute as int, clock.second as int)
                } else {
                    old(self).timelapse
                }
            }),
            r.timelapse_rotate matches Some(f) ==> f@ == timelapse_path(
                old(self).camera.name@,
                clock.stamp@,
            ),
    {
        let mut qualifying: bool = false;
        let mut publish_best: bool = false;
        let mut start: Option<SessionStart> = None;
        match det {
            Some(d) => {
                let cx: i64 = d.x as i64 + half_toward_zero(d.width as i64);
                let cy: i64 = d.y as i64 + half_toward_zero(d.height as i64);
                if inside_polygon(&self.camera.boundary, cx, cy) {
                    qualifying = true;
                    proof {
                        lemma_abs_mul_bound(d.width as int, d.height as int, 0x80000000);
                    }
                    let area: i64 = (d.width as i64) * (d.height as i64);
                    let (new_best, activated) = self.trigger.observe(
                        self.camera.trigger_frames,
                        self.camera.trigger_distance_milli,
                        cx,
                        cy,
                        area,
                        clock.now_ms,
                    );
                    publish_best = new_best && self.session_open;
                    if activated {
                        start = Some(
                            SessionStart {
                                video: video_filename(self.camera.name.as_str(), clock.stamp.as_str()),
                                first_photo: first_photo_filename(
                                    self.camera.name.as_str(),
                                    clock.stamp.as_str(),
                                ),
                            },
                        );
                        self.session_open = true;
                    }
                }
            },
            None => {},
        }
        let directive = self.trigger.maintain(clock.now_ms);
        if self.window_frames < u32::MAX {
            self.window_frames = self.window_frames + 1;
        }
        let window_ms: u64 = if clock.now_ms >= self.tick_ms {
            clock.now_ms - self.tick_ms
        } else {
            0
        };
        let mut tick: Option<TickReport> = None;
        let mut timelapse_write: bool = false;
        let mut timelapse_rotate: Option<String> = None;
        if window_ms > TICK_WINDOW_MS {
            let failed = self.trigger.tick_reset();
            tick = Some(
                TickReport { window_frames: self.window_frames, window_ms, failed_trigger: failed },
            );
            self.window_frames = 0;
            self.tick_ms = clock.now_ms;
            if self.camera.timelapse {
                timelapse_write = true;
                let rotate = self.timelapse.tick(clock.minute, clock.second);
                if rotate {
                    timelapse_rotate = Some(
                        timelapse_filename(self.camera.name.as_str(), clock.stamp.as_str()),
                    );
                }
            }
        }
        FrameActions {
            qualifying,
            publish_best,
            start,
            directive,
            tick,
            timelapse_write,
            timelapse_rotate,
        }
    }
}

} // verus!
