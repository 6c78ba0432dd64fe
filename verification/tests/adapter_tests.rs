use security_camera::adapter::{crop_geometry, pack_rgb_from_bgr};

#[test]
fn triplets_are_swapped() {
    let src = vec![1u8, 2, 3, 4, 5, 6];
    assert_eq!(pack_rgb_from_bgr(&src), vec![3, 2, 1, 6, 5, 4]);
}

#[test]
fn swap_is_its_own_inverse() {
    let src: Vec<u8> = (0..30).collect();
    assert_eq!(pack_rgb_from_bgr(&pack_rgb_from_bgr(&src)), src);
}

#[test]
fn empty_image() {
    assert_eq!(pack_rgb_from_bgr(&vec![]), vec![]);
}

#[test]
fn landscape_crop_is_centered() {
    // 640x480: the square spans the full height, centered horizontally.
    assert_eq!(crop_geometry(640, 480), (80, 560));
}

#[test]
fn portrait_crop_starts_at_zero() {
    // 480x640: the square spans the full width.
    assert_eq!(crop_geometry(480, 640), (0, 480));
}

#[test]
fn square_stream_needs_no_crop() {
    assert_eq!(crop_geometry(320, 320), (0, 320));
}

#[test]
fn odd_margin_rounds_down() {
    assert_eq!(crop_geometry(7, 4), (1, 5));
}
