use security_camera::geometry::{inside_polygon, Point};

fn square() -> Vec<Point> {
    vec![
        Point::new(0, 0),
        Point::new(10, 0),
        Point::new(10, 10),
        Point::new(0, 10),
    ]
}

#[test]
fn no_polygon_admits_everything() {
    assert!(inside_polygon(&None, 5, 5));
    assert!(inside_polygon(&None, -1000, 1000000));
}

#[test]
fn point_inside_square() {
    let b = Some(square());
    assert!(inside_polygon(&b, 5, 5));
    assert!(inside_polygon(&b, 9, 1));
}

#[test]
fn point_outside_square() {
    let b = Some(square());
    assert!(!inside_polygon(&b, 15, 5));
    assert!(!inside_polygon(&b, -1, 5));
    assert!(!inside_polygon(&b, 5, 11));
    assert!(!inside_polygon(&b, 5, -1));
}

#[test]
fn concave_polygon() {
    // A U-shape: the notch between the arms is outside.
    let b = Some(vec![
        Point::new(0, 0),
        Point::new(12, 0),
        Point::new(12, 12),
        Point::new(8, 12),
        Point::new(8, 4),
        Point::new(4, 4),
        Point::new(4, 12),
        Point::new(0, 12),
    ]);
    assert!(inside_polygon(&b, 2, 10));
    assert!(inside_polygon(&b, 10, 10));
    assert!(!inside_polygon(&b, 6, 10));
    assert!(inside_polygon(&b, 6, 2));
}

#[test]
fn triangle_with_negative_coordinates() {
    let b = Some(vec![
        Point::new(-10, -10),
        Point::new(10, -10),
        Point::new(0, 10),
    ]);
    assert!(inside_polygon(&b, 0, 0));
    assert!(!inside_polygon(&b, -10, 5));
}
