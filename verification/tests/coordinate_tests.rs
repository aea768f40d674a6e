use airfield_waypoints::angle::{Angle, Hemisphere};
use airfield_waypoints::coordinate::{parse_coordinate, CoordinateFormatError};

fn angle(
    hemisphere: Hemisphere,
    degrees: u32,
    minutes: u32,
    sec_whole: u32,
    sec_frac: u32,
    sec_frac_digits: u32,
) -> Angle {
    Angle { hemisphere, degrees, minutes, sec_whole, sec_frac, sec_frac_digits }
}

#[test]
fn parses_north_token() {
    let a = parse_coordinate("N523000").unwrap();
    assert_eq!(a, angle(Hemisphere::North, 52, 30, 0, 0, 0));
}

#[test]
fn parses_west_three_digit_token() {
    let a = parse_coordinate("W0174530").unwrap();
    assert_eq!(a, angle(Hemisphere::West, 17, 45, 30, 0, 0));
}

#[test]
fn parses_east_and_south_tokens() {
    let e = parse_coordinate("E1234556").unwrap();
    assert_eq!(e, angle(Hemisphere::East, 123, 45, 56, 0, 0));
    let s = parse_coordinate("S334512").unwrap();
    assert_eq!(s, angle(Hemisphere::South, 33, 45, 12, 0, 0));
}

#[test]
fn parses_fractional_seconds() {
    let a = parse_coordinate("N523015.5").unwrap();
    assert_eq!(a, angle(Hemisphere::North, 52, 30, 15, 5, 1));
}

#[test]
fn parses_empty_whole_seconds() {
    let a = parse_coordinate("N5230.5").unwrap();
    assert_eq!(a, angle(Hemisphere::North, 52, 30, 0, 5, 1));
}

#[test]
fn parses_trailing_point_seconds() {
    let a = parse_coordinate("N523015.").unwrap();
    assert_eq!(a, angle(Hemisphere::North, 52, 30, 15, 0, 0));
}

#[test]
fn parses_boundary_latitude_and_longitude() {
    let n = parse_coordinate("N900000").unwrap();
    assert_eq!(n.degrees, 90);
    let e = parse_coordinate("E1800000").unwrap();
    assert_eq!(e.degrees, 180);
}

#[test]
fn parses_long_whole_seconds() {
    let a = parse_coordinate("N5230123").unwrap();
    assert_eq!(a, angle(Hemisphere::North, 52, 30, 123, 0, 0));
}

#[test]
fn rejects_bad_hemisphere_letter() {
    assert_eq!(parse_coordinate("X523000"), Err(CoordinateFormatError));
    assert_eq!(parse_coordinate("n523000"), Err(CoordinateFormatError));
}

#[test]
fn rejects_empty_token() {
    assert_eq!(parse_coordinate(""), Err(CoordinateFormatError));
}

#[test]
fn rejects_short_token() {
    assert_eq!(parse_coordinate("N5230"), Err(CoordinateFormatError));
    assert_eq!(parse_coordinate("W01745"), Err(CoordinateFormatError));
}

#[test]
fn rejects_nondigit_degrees() {
    assert_eq!(parse_coordinate("N5a3000"), Err(CoordinateFormatError));
}

#[test]
fn rejects_nondigit_minutes() {
    assert_eq!(parse_coordinate("N52x000"), Err(CoordinateFormatError));
}

#[test]
fn rejects_nondigit_seconds() {
    assert_eq!(parse_coordinate("N52300a"), Err(CoordinateFormatError));
}

#[test]
fn rejects_point_only_seconds() {
    assert_eq!(parse_coordinate("N5230."), Err(CoordinateFormatError));
}

#[test]
fn rejects_two_points_in_seconds() {
    assert_eq!(parse_coordinate("N523015.5.5"), Err(CoordinateFormatError));
}

#[test]
fn rejects_overlong_fraction() {
    assert_eq!(parse_coordinate("N523000.0123456789"), Err(CoordinateFormatError));
    assert!(parse_coordinate("N523000.012345678").is_ok());
}

#[test]
fn rejects_oversized_whole_seconds() {
    assert_eq!(parse_coordinate("N52304294967296"), Err(CoordinateFormatError));
    let a = parse_coordinate("N52304294967295").unwrap();
    assert_eq!(a.sec_whole, u32::MAX);
}

#[test]
fn parsed_angles_are_well_formed() {
    assert!(parse_coordinate("N523000").unwrap().check_wf());
    assert!(parse_coordinate("W0174530.25").unwrap().check_wf());
}
