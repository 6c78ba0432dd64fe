//! Trigger state machine: per camera, accumulates evidence across frames
//! (consecutive qualifying frames and cumulative movement) inside a rolling
//! one-second window, starts a recording session when both thresholds are
//! exceeded, and ends it after thirty seconds without a qualifying detection.
//!
//! Distances are held in exact fixed point, thousandths of a pixel: the step
//! between two centers is the integer square root of
//! `1_000_000 * (dx * dx + dy * dy)`, so one pixel of movement counts 1000.

use vstd::prelude::*;

verus! {

/// A detected bounding box in source-frame pixel coordinates. Width and
/// height are differences of two model output corners and may be negative
/// when the raw output is inconsistent; nothing here assumes positivity.
#[derive(Debug, Clone, Copy, PartialEq, Eq, Structural)]
pub struct Detection {
    pub x: i32,
    pub y: i32,
    pub width: i32,
    pub height: i32,
}

/// Milliseconds without a qualifying detection after which an active
/// session is ended.
pub const SESSION_TIMEOUT_MS: u64 = 30000;

/// Per-camera trigger evidence, mutated once per processed frame.
pub struct TriggerState {
    /// Whether a recording session is currently active.
    pub active: bool,
    /// Qualifying frames seen in the current one-second window.
    pub frames: i32,
    /// Movement accumulated in the current window, in thousandths of a pixel.
    pub distance_milli: u64,
    /// Center of the last qualifying detection in the current window.
    pub last_center: Option<(i64, i64)>,
    /// Largest bounding-box area seen since the last deactivation.
    pub best_area: i64,
    /// Time of the last qualifying detection, in milliseconds.
    pub last_seen_ms: u64,
}

/// Center coordinates stay in the range reachable from an `i32` box:
/// `x + width / 2` has magnitude below `2^32`.
pub open spec fn center_in_range(c: int) -> bool {
    -0x100000000 <= c <= 0x100000000
}

impl TriggerState {
    pub open spec fn wf(self) -> bool {
        match self.last_center {
            Some(lc) => center_in_range(lc.0 as int) && center_in_range(lc.1 as int),
            None => true,
        }
    }

    /// The initial state: inactive, with no accumulated evidence.
    pub fn new() -> (s: TriggerState)
        ensures
            s == initial_trigger(),
    {
        TriggerState {
            active: false,
            frames: 0,
            distance_milli: 0,
            last_center: None,
            best_area: 0,
            last_seen_ms: 0,
        }
    }
}

pub open spec fn initial_trigger() -> TriggerState {
    TriggerState {
        active: false,
        frames: 0,
        distance_milli: 0,
        last_center: None,
        best_area: 0,
        last_seen_ms: 0,
    }
}

/// The floor of the square root of a non-negative integer.
pub closed spec fn sqrt_floor(v: int) -> int {
    choose|r: int| 0 <= r && #[trigger] (r * r) <= v < (r + 1) * (r + 1)
}

proof fn lemma_sqrt_witness_unique(v: int, a: int, b: int)
    by (nonlinear_arith)
    requires
        0 <= a,
        0 <= b,
        a * a <= v < (a + 1) * (a + 1),
        b * b <= v < (b + 1) * (b + 1),
    ensures
        a == b,
{
}

/// Any `r` with `r * r <= v < (r + 1) * (r + 1)` is `sqrt_floor(v)`.
pub proof fn lemma_sqrt_floor(v: int, r: int)
    requires
        0 <= r,
        r * r <= v < (r + 1) * (r + 1),
    ensures
        sqrt_floor(v) == r,
{
    let w = choose|w: int| 0 <= w && #[trigger] (w * w) <= v < (w + 1) * (w + 1);
    assert(0 <= w && w * w <= v < (w + 1) * (w + 1)) by {
        assert(0 <= r && r * r <= v < (r + 1) * (r + 1));
    };
    lemma_sqrt_witness_unique(v, w, r);
}

/// The movement between two centers, in thousandths of a pixel: the integer
/// square root of `1_000_000 * (dx^2 + dy^2)`.
pub open spec fn dist_milli(dx: int, dy: int) -> int {
    sqrt_floor(1000000 * (dx * dx + dy * dy))
}

/// `a + b` capped at the largest `u64`.
pub open spec fn sat_add_u64(a: int, b: int) -> int {
    if a + b > u64::MAX {
        u64::MAX as int
    } else {
        a + b
    }
}

/// `a + 1` capped at the largest `i32`.
pub open spec fn sat_inc_i32(a: int) -> int {
    if a + 1 > i32::MAX {
        i32::MAX as int
    } else {
        a + 1
    }
}

/// The movement step a qualifying detection at `(cx, cy)` adds: zero on the
/// first qualifying frame of a window, else the distance from the last center.
pub open spec fn observe_dist(s: TriggerState, cx: int, cy: int) -> int {
    match s.last_center {
        Some(lc) => dist_milli(cx - lc.0, cy - lc.1),
        None => 0,
    }
}

/// Whether a qualifying detection activates the trigger: the state is not
/// already active and both updated counters strictly exceed their thresholds.
pub open spec fn observe_activates(
    s: TriggerState,
    trigger_frames: int,
    trigger_distance_milli: int,
    cx: int,
    cy: int,
) -> bool {
    &&& !s.active
    &&& sat_inc_i32(s.frames as int) > trigger_frames
    &&& sat_add_u64(s.distance_milli as int, observe_dist(s, cx, cy)) > trigger_distance_milli
}

/// The state after a qualifying detection at `(cx, cy)` with box area `area`
/// at time `now_ms`.
pub open spec fn observe_step(
    s: TriggerState,
    trigger_frames: int,
    trigger_distance_milli: int,
    cx: int,
    cy: int,
    area: int,
    now_ms: int,
) -> TriggerState {
    TriggerState {
        active: s.active || observe_activates(s, trigger_frames, trigger_distance_milli, cx, cy),
        frames: sat_inc_i32(s.frames as int) as i32,
        distance_milli: sat_add_u64(s.distance_milli as int, observe_dist(s, cx, cy)) as u64,
        last_center: Some((cx as i64, cy as i64)),
        best_area: if area > s.best_area {
            area as i64
        } else {
            s.best_area
        },
        last_seen_ms: now_ms as u64,
    }
}

/// Milliseconds since the last qualifying detection, zero if the clock reads
/// earlier than that detection.
pub open spec fn elapsed_since_seen(s: TriggerState, now_ms: int) -> int {
    if now_ms >= s.last_seen_ms {
        now_ms - s.last_seen_ms
    } else {
        0
    }
}

/// Whether an active session has outlived the inactivity timeout.
pub open spec fn timed_out(s: TriggerState, now_ms: int) -> bool {
    s.active && elapsed_since_seen(s, now_ms) > SESSION_TIMEOUT_MS
}

/// The state after the per-frame session upkeep: deactivation resets the
/// best area; otherwise nothing changes.
pub open spec fn maintain_step(s: TriggerState, now_ms: int) -> TriggerState {
    if timed_out(s, now_ms) {
        TriggerState { active: false, best_area: 0, ..s }
    } else {
        s
    }
}

/// What the camera loop must do with the current frame.
#[derive(Debug, Clone, Copy, PartialEq, Eq, Structural)]
pub enum SessionDirective {
    /// Active session, no timeout: forward the frame to the session.
    Forward,
    /// Active session timed out: send the end signal.
    EndSession,
    /// No active session: stash the frame in the pre-event ring buffer.
    Stash,
}

pub open spec fn maintain_directive(s: TriggerState, now_ms: int) -> SessionDirective {
    if !s.active {
        SessionDirective::Stash
    } else if timed_out(s, now_ms) {
        SessionDirective::EndSession
    } else {
        SessionDirective::Forward
    }
}

/// The state after a one-second tick: window evidence is cleared; activity,
/// best area and last-seen time carry across the boundary.
pub open spec fn tick_reset_step(s: TriggerState) -> TriggerState {
    TriggerState { frames: 0, distance_milli: 0, last_center: None, ..s }
}

/// The diagnostic a tick reports: the discarded counts, when the window saw
/// qualifying frames but no activation.
pub open spec fn tick_diagnostic(s: TriggerState) -> Option<(i32, u64)> {
    if !s.active && s.frames > 0 {
        Some((s.frames, s.distance_milli))
    } else {
        None
    }
}

/// One scripted qualifying observation: center, box area, and time.
/// Fields: center x, center y, area, milliseconds.
pub struct Obs {
    pub cx: int,
    pub cy: int,
    pub area: int,
    pub at_ms: int,
}

/// The trigger state after a scripted sequence of qualifying observations.
pub open spec fn trigger_after(
    s: TriggerState,
    obs: Seq<Obs>,
    trigger_frames: int,
    trigger_distance_milli: int,
) -> TriggerState
    decreases obs.len(),
{
    if obs.len() == 0 {
        s
    } else {
        let p = trigger_after(s, obs.drop_last(), trigger_frames, trigger_distance_milli);
        observe_step(
            p,
            trigger_frames,
            trigger_distance_milli,
            obs.last().cx,
            obs.last().cy,
            obs.last().area,
            obs.last().at_ms,
        )
    }
}

/// Whether observation `k` is the crossing: at that frame the state is
/// still inactive and both updated counters strictly exceed their
/// thresholds for the first time.
pub open spec fn crossing_at(
    s: TriggerState,
    obs: Seq<Obs>,
    trigger_frames: int,
    trigger_distance_milli: int,
    k: int,
) -> bool {
    observe_activates(
        trigger_after(s, obs.take(k), trigger_frames, trigger_distance_milli),
        trigger_frames,
        trigger_distance_milli,
        obs[k].cx,
        obs[k].cy,
    )
}

/// Once active, a trigger stays active through any further observations.
pub proof fn lemma_active_persists(
    s: TriggerState,
    obs: Seq<Obs>,
    trigger_frames: int,
    trigger_distance_milli: int,
)
    requires
        s.active,
    ensures
        trigger_after(s, obs, trigger_frames, trigger_distance_milli).active,
    decreases obs.len(),
{
    if obs.len() > 0 {
        lemma_active_persists(s, obs.drop_last(), trigger_frames, trigger_distance_milli);
    }
}

/// Activation timing law. Run an inactive trigger through any scripted
/// sequence of qualifying observations: it ends active exactly when some
/// observation crossed both thresholds, and at most one observation is
/// such a crossing — the first frame where the thresholds are exceeded,
/// since after it the trigger is active and cannot activate again. So
/// activation occurs exactly at the frame where both conditions first
/// hold simultaneously.
#[verifier::rlimit(100)]
pub proof fn lemma_activation_exactly_at_crossing(
    s: TriggerState,
    obs: Seq<Obs>,
    trigger_frames: int,
    trigger_distance_milli: int,
)
    requires
        !s.active,
    ensures
        trigger_after(s, obs, trigger_frames, trigger_distance_milli).active <==> exists|k: int|
            0 <= k < obs.len() && #[trigger] crossing_at(
                s,
                obs,
                trigger_frames,
                trigger_distance_milli,
                k,
            ),
        forall|k1: int, k2: int|
            0 <= k1 < k2 < obs.len() && crossing_at(
                s,
                obs,
                trigger_frames,
                trigger_distance_milli,
                k1,
            ) ==> !crossing_at(s, obs, trigger_frames, trigger_distance_milli, k2),
    decreases obs.len(),
{
    let tf = trigger_frames;
    let td = trigger_distance_milli;
    if obs.len() > 0 {
        let n = obs.len() as int;
        lemma_activation_exactly_at_crossing(s, obs.drop_last(), tf, td);
        assert forall|k: int| 0 <= k < n - 1 implies #[trigger] crossing_at(s, obs, tf, td, k)
            == crossing_at(s, obs.drop_last(), tf, td, k) by {
            assert(obs.take(k) =~= obs.drop_last().take(k));
            assert(obs[k] == obs.drop_last()[k]);
        }
        assert(obs.take(n - 1) =~= obs.drop_last());
        let p = trigger_after(s, obs.drop_last(), tf, td);
        assert(obs.last() == obs[n - 1]);
        if observe_activates(p, tf, td, obs[n - 1].cx, obs[n - 1].cy) {
            assert(crossing_at(s, obs, tf, td, n - 1));
        }
        if p.active {
            let j = choose|j: int|
                0 <= j < n - 1 && #[trigger] crossing_at(s, obs.drop_last(), tf, td, j);
            assert(crossing_at(s, obs, tf, td, j));
        }
        assert forall|k1: int, k2: int|
            0 <= k1 < k2 < n && crossing_at(s, obs, tf, td, k1) implies !crossing_at(
            s,
            obs,
            tf,
            td,
            k2,
        ) by {
            assert(obs.take(k1 + 1).drop_last() =~= obs.take(k1));
            assert(obs.take(k1 + 1).last() == obs[k1]);
            let after_k1 = trigger_after(s, obs.take(k1 + 1), tf, td);
            assert(after_k1.active);
            assert(obs.take(k2) =~= obs.take(k1 + 1) + obs.take(k2).skip(k1 + 1));
            lemma_trigger_after_concat(
                s,
                obs.take(k1 + 1),
                obs.take(k2).skip(k1 + 1),
                tf,
                td,
            );
            lemma_active_persists(after_k1, obs.take(k2).skip(k1 + 1), tf, td);
        }
    }
}

/// Running a trigger through a concatenation runs it through each part in
/// turn.
pub proof fn lemma_trigger_after_concat(
    s: TriggerState,
    a: Seq<Obs>,
    b: Seq<Obs>,
    trigger_frames: int,
    trigger_distance_milli: int,
)
    ensures
        trigger_after(s, a + b, trigger_frames, trigger_distance_milli) == trigger_after(
            trigger_after(s, a, trigger_frames, trigger_distance_milli),
            b,
            trigger_frames,
            trigger_distance_milli,
        ),
    decreases b.len(),
{
    if b.len() == 0 {
        assert(a + b =~= a);
    } else {
        assert((a + b).drop_last() =~= a + b.drop_last());
        assert((a + b).last() == b.last());
        lemma_trigger_after_concat(s, a, b.drop_last(), trigger_frames, trigger_distance_milli);
    }
}

/// Deactivation timing law: after any nonempty scripted sequence of
/// qualifying observations, the session-upkeep directive ends the session
/// exactly when more than the timeout has passed since the last
/// observation — thirty seconds of simulated clock after the last
/// qualifying frame, never earlier and never later.
pub proof fn lemma_deactivation_timing(
    s: TriggerState,
    obs: Seq<Obs>,
    trigger_frames: int,
    trigger_distance_milli: int,
    now_ms: int,
)
    requires
        obs.len() > 0,
        0 <= obs.last().at_ms <= u64::MAX,
        now_ms >= obs.last().at_ms,
    ensures
        ({
            let t = trigger_after(s, obs, trigger_frames, trigger_distance_milli);
            &&& t.last_seen_ms == obs.last().at_ms as u64
            &&& (maintain_directive(t, now_ms) == SessionDirective::EndSession <==> t.active
                && now_ms - obs.last().at_ms > SESSION_TIMEOUT_MS)
        }),
{
}

proof fn lemma_square_bound(a: int, b: int)
    by (nonlinear_arith)
    requires
        -b <= a <= b,
        0 <= b,
    ensures
        0 <= a * a <= b * b,
{
}

proof fn lemma_mul_le(a: int, b: int, c: int)
    by (nonlinear_arith)
    requires
        0 <= a <= b,
        0 <= c,
    ensures
        a * c <= b * c,
{
}

/// Integer square root by bisection: the unique `r` with
/// `r * r <= v < (r + 1) * (r + 1)`.
fn isqrt(v: u128) -> (r: u64)
    requires
        v < 0x10000000000000000000000,
    ensures
        r as int == sqrt_floor(v as int),
        (r as int) * (r as int) <= (v as int) < ((r as int) + 1) * ((r as int) + 1),
{
    let mut lo: u128 = 0;
    let mut hi: u128 = 0x100000000000;
    proof {
        assert((0x100000000000 as int) * (0x100000000000 as int) == 0x10000000000000000000000)
            by (nonlinear_arith);
    }
    while lo + 1 < hi
        invariant
            lo < hi <= 0x100000000000,
            (lo as int) * (lo as int) <= v as int,
            (v as int) < (hi as int) * (hi as int),
        decreases hi - lo,
    {
        let mid: u128 = lo + (hi - lo) / 2;
        proof {
            lemma_mul_le(mid as int, 0x100000000000, mid as int);
            lemma_mul_le(mid as int, 0x100000000000, 0x100000000000);
        }
        if mid * mid <= v {
            lo = mid;
        } else {
            hi = mid;
        }
    }
    proof {
        lemma_sqrt_floor(v as int, lo as int);
    }
    lo as u64
}

/// The movement between two centers in thousandths of a pixel, exactly
/// `dist_milli` of the coordinate differences.
pub fn step_distance_milli(ax: i64, ay: i64, bx: i64, by: i64) -> (r: u64)
    requires
        center_in_range(ax as int),
        center_in_range(ay as int),
        center_in_range(bx as int),
        center_in_range(by as int),
    ensures
        r as int == dist_milli(bx - ax, by - ay),
{
    let dx: i128 = bx as i128 - ax as i128;
    let dy: i128 = by as i128 - ay as i128;
    proof {
        lemma_square_bound(dx as int, 0x200000000);
        lemma_square_bound(dy as int, 0x200000000);
        assert((0x200000000 as int) * (0x200000000 as int) == 0x40000000000000000)
            by (nonlinear_arith);
    }
    let sq: i128 = dx * dx + dy * dy;
    let scaled: u128 = (sq as u128) * 1000000;
    isqrt(scaled)
}

impl TriggerState {
    /// Accounts one qualifying detection (inside the boundary) with center
    /// `(cx, cy)` and box area `area` at time `now_ms`: refreshes the
    /// last-seen time, tracks the best area, accumulates the window counters,
    /// and reports whether a new best frame must be published and whether
    /// the trigger activates.
    pub fn observe(
        &mut self,
        trigger_frames: i32,
        trigger_distance_milli: u64,
        cx: i64,
        cy: i64,
        area: i64,
        now_ms: u64,
    ) -> (r: (bool, bool))
        requires
            old(self).wf(),
            center_in_range(cx as int),
            center_in_range(cy as int),
        ensures
            final(self).wf(),
            *final(self) == observe_step(
                *old(self),
                trigger_frames as int,
                trigger_distance_milli as int,
                cx as int,
                cy as int,
                area as int,
                now_ms as int,
            ),
            r.0 == (area > old(self).best_area),
            r.1 == observe_activates(
                *old(self),
                trigger_frames as int,
                trigger_distance_milli as int,
                cx as int,
                cy as int,
            ),
    {
        self.last_seen_ms = now_ms;
        let new_best: bool = area > self.best_area;
        if new_best {
            self.best_area = area;
        }
        if self.frames < i32::MAX {
            self.frames = self.frames + 1;
        }
        let step: u64 = match self.last_center {
            Some(lc) => step_distance_milli(lc.0, lc.1, cx, cy),
            None => 0,
        };
        if u64::MAX - self.distance_milli < step {
            self.distance_milli = u64::MAX;
        } else {
            self.distance_milli = self.distance_milli + step;
        }
        self.last_center = Some((cx, cy));
        let activated: bool = !self.active && self.frames > trigger_frames
            && self.distance_milli > trigger_distance_milli;
        if activated {
            self.active = true;
        }
        (new_best, activated)
    }

    /// Per-frame session upkeep: decides whether the frame is forwarded to
    /// the active session, the session is ended for inactivity, or the frame
    /// is stashed in the pre-event buffer; deactivation resets the best area.
    pub fn maintain(&mut self, now_ms: u64) -> (d: SessionDirective)
        requires
            old(self).wf(),
        ensures
            final(self).wf(),
            *final(self) == maintain_step(*old(self), now_ms as int),
            d == maintain_directive(*old(self), now_ms as int),
    {
        if !self.active {
            SessionDirective::Stash
        } else {
            let elapsed: u64 = if now_ms >= self.last_seen_ms {
                now_ms - self.last_seen_ms
            } else {
                0
            };
            if elapsed > SESSION_TIMEOUT_MS {
                self.active = false;
                self.best_area = 0;
                SessionDirective::EndSession
            } else {
                SessionDirective::Forward
            }
        }
    }

    /// One-second window boundary: clears the window evidence and reports
    /// the discarded counts when they failed to trigger.
    pub fn tick_reset(&mut self) -> (diag: Option<(i32, u64)>)
        requires
            old(self).wf(),
        ensures
            final(self).wf(),
            *final(self) == tick_reset_step(*old(self)),
            diag == tick_diagnostic(*old(self)),
    {
        let diag: Option<(i32, u64)> = if !self.active && self.frames > 0 {
            Some((self.frames, self.distance_milli))
        } else {
            None
        };
        self.frames = 0;
        self.distance_milli = 0;
        self.last_center = None;
        diag
    }
}

} // verus!
