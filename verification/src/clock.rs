//! Wall-clock sampling. Each processed frame carries one clock sample:
//! milliseconds for the trigger's timing, the local hour-minute-second for
//! timelapse rotation, and the local `YYYYMMDD-HHMMSS` stamp for file names.
//! The pipeline itself is a pure function of the sample, so its timing
//! behaviour is stated — and testable — over explicit clock values.

use vstd::prelude::*;

verus! {

/// One reading of the wall clock.
pub struct ClockSample {
    /// Milliseconds since the Unix epoch.
    pub now_ms: u64,
    /// Local time of day.
    pub hour: u32,
    pub minute: u32,
    pub second: u32,
    /// The reading formatted as `YYYYMMDD-HHMMSS` in local time.
    pub stamp: String,
}

impl ClockSample {
    pub open spec fn wf(self) -> bool {
        self.hour < 24 && self.minute < 60 && self.second < 60
    }
}

/// Relies on chrono's `Local::now` and the `Timelike` accessors `hour`,
/// `minute` and `second`, documented to return 0..=23, 0..=59 and 0..=59.
#[verifier::external_body]
fn local_hms() -> (r: (u32, u32, u32))
    ensures
        r.0 < 24,
        r.1 < 60,
        r.2 < 60,
{
    let now = chrono::Local::now();
    (
        chrono::Timelike::hour(&now),
        chrono::Timelike::minute(&now),
        chrono::Timelike::second(&now),
    )
}

/// Relies on chrono's `Local::now` and `DateTime::format`: the current local
/// time rendered with the format string `%Y%m%d-%H%M%S`. The result depends
/// on the wall clock, so nothing is promised of its value.
#[verifier::external_body]
fn local_stamp() -> (r: String) {
    chrono::Local::now().format("%Y%m%d-%H%M%S").to_string()
}

/// Relies on std's `SystemTime::now` and `duration_since`: milliseconds
/// since the Unix epoch, zero if the clock reads earlier than the epoch.
/// The result depends on the wall clock, so nothing is promised of it.
#[verifier::external_body]
fn epoch_millis() -> (r: u64) {
    match std::time::SystemTime::now().duration_since(std::time::UNIX_EPOCH) {
        Ok(d) => d.as_millis() as u64,
        Err(_) => 0,
    }
}

/// Reads the wall clock once, for one processed frame.
pub fn sample_clock() -> (c: ClockSample)
    ensures
        c.wf(),
{
    let (h, m, s) = local_hms();
    ClockSample { now_ms: epoch_millis(), hour: h, minute: m, second: s, stamp: local_stamp() }
}

} // verus!
