use wayshot::backend::CaptureRegion;
use wayshot::parse::parse_geometry;

fn region(x: i32, y: i32, width: i32, height: i32) -> CaptureRegion {
    CaptureRegion { x_coordinate: x, y_coordinate: y, width, height }
}

#[test]
fn comma_form_is_read() {
    assert_eq!(parse_geometry("100,100 400x300"), Some(region(100, 100, 400, 300)));
}

#[test]
fn space_form_is_read() {
    assert_eq!(parse_geometry("100 100 400 300"), Some(region(100, 100, 400, 300)));
}

#[test]
fn both_forms_agree() {
    assert_eq!(parse_geometry("100,100 400x300"), parse_geometry("100 100 400 300"));
}

#[test]
fn surrounding_white_space_is_ignored() {
    assert_eq!(parse_geometry("  \t-5,+7 1x2\n"), Some(region(-5, 7, 1, 2)));
    assert_eq!(parse_geometry("\u{a0}1 2 3 4\u{3000}"), Some(region(1, 2, 3, 4)));
}

#[test]
fn limits_of_i32_are_read() {
    assert_eq!(
        parse_geometry("-2147483648,2147483647 0x0"),
        Some(region(i32::MIN, i32::MAX, 0, 0))
    );
    assert_eq!(parse_geometry("2147483648,0 1x1"), None);
    assert_eq!(parse_geometry("-2147483649,0 1x1"), None);
    assert_eq!(parse_geometry("99999999999999999999999999 0 1 1"), None);
}

#[test]
fn malformed_text_is_refused() {
    assert_eq!(parse_geometry(""), None);
    assert_eq!(parse_geometry("   "), None);
    assert_eq!(parse_geometry("1 2 3"), None);
    assert_eq!(parse_geometry("1 2 3 4 5"), None);
    assert_eq!(parse_geometry("1,2 3 4"), None);
    assert_eq!(parse_geometry("1,2 3x"), None);
    assert_eq!(parse_geometry("1,2  3x4"), None);
    assert_eq!(parse_geometry("1 2 3 x"), None);
    assert_eq!(parse_geometry("+,2 3x4"), None);
    assert_eq!(parse_geometry("-,2 3x4"), None);
    assert_eq!(parse_geometry("1,2 3x4x5"), None);
    assert_eq!(parse_geometry("a b c d"), None);
    assert_eq!(parse_geometry("1  2 3 4"), None);
}

#[test]
fn leading_zeros_are_accepted() {
    assert_eq!(parse_geometry("007,-000 0010x+0300"), Some(region(7, 0, 10, 300)));
}
