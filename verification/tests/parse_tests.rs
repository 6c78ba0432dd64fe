use security_camera::geometry::Point;
use security_camera::parse::parse_polygon;

fn parse(bytes: &[u8]) -> Option<Vec<Point>> {
    parse_polygon(&bytes.to_vec())
}

#[test]
fn simple_file() {
    let v = parse(b"x,y\n1,2\n3,4\n").expect("well-formed file");
    assert_eq!(v, vec![Point::new(1, 2), Point::new(3, 4)]);
}

#[test]
fn crlf_line_endings() {
    let v = parse(b"x,y\r\n-5,7\r\n10,0\r\n").expect("well-formed file");
    assert_eq!(v, vec![Point::new(-5, 7), Point::new(10, 0)]);
}

#[test]
fn no_trailing_newline() {
    let v = parse(b"x,y\n100,200").expect("well-formed file");
    assert_eq!(v, vec![Point::new(100, 200)]);
}

#[test]
fn blank_lines_are_skipped() {
    let v = parse(b"x,y\n\n1,1\n\n2,2\n").expect("well-formed file");
    assert_eq!(v, vec![Point::new(1, 1), Point::new(2, 2)]);
}

#[test]
fn empty_and_header_only_files_give_no_points() {
    assert_eq!(parse(b""), Some(vec![]));
    assert_eq!(parse(b"x,y"), Some(vec![]));
    assert_eq!(parse(b"x,y\n"), Some(vec![]));
}

#[test]
fn extreme_values_fit() {
    let v = parse(b"x,y\n2147483647,-2147483648\n").expect("extremes fit an i32");
    assert_eq!(v, vec![Point::new(i32::MAX, i32::MIN)]);
}

#[test]
fn out_of_range_rejected() {
    assert_eq!(parse(b"x,y\n2147483648,0\n"), None);
    assert_eq!(parse(b"x,y\n0,-2147483649\n"), None);
    assert_eq!(parse(b"x,y\n99999999999999999999,1\n"), None);
}

#[test]
fn malformed_lines_rejected() {
    assert_eq!(parse(b"x,y\n1;2\n"), None); // no comma
    assert_eq!(parse(b"x,y\n1,2,3\n"), None); // too many fields
    assert_eq!(parse(b"x,y\nfoo,2\n"), None); // not a number
    assert_eq!(parse(b"x,y\n1,\n"), None); // empty field
    assert_eq!(parse(b"x,y\n-,2\n"), None); // bare minus
    assert_eq!(parse(b"x,y\n1 ,2\n"), None); // stray space
}
