//! Camera configuration: one record per camera, immutable after load, plus
//! the command-line configuration for single-camera mode.

use vstd::prelude::*;
use vstd::string::StringExecFns;
use crate::geometry::Point;

verus! {

/// One camera's configuration. Movement thresholds are held in thousandths
/// of a pixel, the library's exact fixed-point distance unit.
#[derive(Debug, Clone)]
pub struct Camera {
    pub name: String,
    pub source: String,
    pub timelapse: bool,
    pub monitor: bool,
    pub boundary: Option<Vec<Point>>,
    pub trigger_frames: i32,
    pub trigger_distance_milli: u64,
}

impl Camera {
    /// A configured boundary polygon has at least one vertex (three for a
    /// meaningful region; one suffices for the point test to be defined).
    pub open spec fn wf(self) -> bool {
        match self.boundary {
            Some(poly) => poly@.len() >= 1,
            None => true,
        }
    }

    /// The default single-camera configuration for a stream URL: monitored,
    /// no timelapse, no boundary, and thresholds that fire on the first
    /// qualifying frame.
    pub fn new(url: &str) -> (c: Camera)
        ensures
            c.wf(),
            c.name@ == "Security Camera"@,
            c.source@ == url@,
            !c.timelapse,
            c.monitor,
            c.boundary is None,
            c.trigger_frames == 1,
            c.trigger_distance_milli == 0,
    {
        Camera {
            name: String::from_str("Security Camera"),
            source: String::from_str(url),
            timelapse: false,
            monitor: true,
            boundary: None,
            trigger_frames: 1,
            trigger_distance_milli: 0,
        }
    }
}

/// A multi-camera configuration: the list of cameras to supervise.
#[derive(Debug, Clone)]
pub struct Config {
    pub cameras: Vec<Camera>,
}

/// The command-line configuration for single-camera mode.
#[derive(Debug, Clone)]
pub struct CliConfig {
    pub arg_video_source: String,
    pub flag_monitor: bool,
    pub flag_timelapse: bool,
    pub flag_polygon: Option<String>,
    pub flag_config: Option<String>,
}

} // verus!
