use security_camera::names::{
    best_photo_filename, first_photo_filename, timelapse_filename, video_filename,
};

#[test]
fn video_name() {
    assert_eq!(
        video_filename("porch", "20260102-120000"),
        "captures/people/video/porch20260102-120000.mp4"
    );
}

#[test]
fn first_photo_name() {
    assert_eq!(
        first_photo_filename("porch", "20260102-120000"),
        "captures/people/photos/porch20260102-120000-first.jpg"
    );
}

#[test]
fn best_photo_name() {
    assert_eq!(
        best_photo_filename("porch", "20260102-120503"),
        "captures/people/photos/porch20260102-120503-best.jpg"
    );
}

#[test]
fn timelapse_name() {
    assert_eq!(
        timelapse_filename("porch", "20260102-130000"),
        "captures/timelapse/porch20260102-130000.mp4"
    );
}
