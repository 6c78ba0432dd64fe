//! Output file naming: videos, first and best photos, and timelapse files
//! are all keyed by the camera's name and a local `YYYYMMDD-HHMMSS` stamp.

use vstd::prelude::*;
use vstd::string::StringExecFns;

verus! {

pub open spec fn video_path(camera: Seq<char>, stamp: Seq<char>) -> Seq<char> {
    "captures/people/video/"@ + camera + stamp + ".mp4"@
}

pub open spec fn first_photo_path(camera: Seq<char>, stamp: Seq<char>) -> Seq<char> {
    "captures/people/photos/"@ + camera + stamp + "-first.jpg"@
}

pub open spec fn best_photo_path(camera: Seq<char>, stamp: Seq<char>) -> Seq<char> {
    "captures/people/photos/"@ + camera + stamp + "-best.jpg"@
}

pub open spec fn timelapse_path(camera: Seq<char>, stamp: Seq<char>) -> Seq<char> {
    "captures/timelapse/"@ + camera + stamp + ".mp4"@
}

/// The name of a session's video file.
pub fn video_filename(camera: &str, stamp: &str) -> (r: String)
    ensures
        r@ == video_path(camera@, stamp@),
{
    let mut s = String::from_str("captures/people/video/");
    s.append(camera);
    s.append(stamp);
    s.append(".mp4");
    s
}

/// The name of the photo written synchronously at session activation.
pub fn first_photo_filename(camera: &str, stamp: &str) -> (r: String)
    ensures
        r@ == first_photo_path(camera@, stamp@),
{
    let mut s = String::from_str("captures/people/photos/");
    s.append(camera);
    s.append(stamp);
    s.append("-first.jpg");
    s
}

/// The name of the best-frame photo written when a session ends, keyed by
/// the best frame's own timestamp.
pub fn best_photo_filename(camera: &str, stamp: &str) -> (r: String)
    ensures
        r@ == best_photo_path(camera@, stamp@),
{
    let mut s = String::from_str("captures/people/photos/");
    s.append(camera);
    s.append(stamp);
    s.append("-best.jpg");
    s
}

/// The name of a timelapse file, used at start-up and at each rotation.
pub fn timelapse_filename(camera: &str, stamp: &str) -> (r: String)
    ensures
        r@ == timelapse_path(camera@, stamp@),
{
    let mut s = String::from_str("captures/timelapse/");
    s.append(camera);
    s.append(stamp);
    s.append(".mp4");
    s
}

} // verus!
