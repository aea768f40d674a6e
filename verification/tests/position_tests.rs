use airfield_waypoints::angle::Hemisphere;
use airfield_waypoints::decimal::{to_decimal_degrees, DecimalDegrees, DECIMAL_SCALE};
use airfield_waypoints::position::{parse_position, PositionFormatError};

fn as_f64(d: &DecimalDegrees) -> f64 {
    let magnitude = d.scaled as f64 / DECIMAL_SCALE as f64;
    if d.negative {
        -magnitude
    } else {
        magnitude
    }
}

#[test]
fn parses_combined_position() {
    let p = parse_position("N523000 E0174530").unwrap();
    assert_eq!(p.lat.hemisphere, Hemisphere::North);
    assert_eq!(p.lon.hemisphere, Hemisphere::East);
    let lat = to_decimal_degrees(&p.lat);
    let lon = to_decimal_degrees(&p.lon);
    assert!((as_f64(&lat) - 52.5).abs() < 1e-9);
    assert!((as_f64(&lon) - 17.758333333333333).abs() < 1e-6);
}

#[test]
fn rejects_bad_first_token() {
    assert_eq!(parse_position("X523000 E0174530"), Err(PositionFormatError));
}

#[test]
fn rejects_bad_second_token() {
    assert_eq!(parse_position("N523000 E01745x0"), Err(PositionFormatError));
}

#[test]
fn rejects_token_without_space() {
    assert_eq!(parse_position("N523000E0174530"), Err(PositionFormatError));
}

#[test]
fn rejects_empty_position_token() {
    assert_eq!(parse_position(""), Err(PositionFormatError));
}

#[test]
fn splits_on_first_space_only() {
    assert_eq!(parse_position("N523000 E0174530 S000000"), Err(PositionFormatError));
}

#[test]
fn rejects_leading_space() {
    assert_eq!(parse_position(" N523000"), Err(PositionFormatError));
}

#[test]
fn axis_letters_are_not_cross_checked() {
    let p = parse_position("E0174530 N523000").unwrap();
    assert_eq!(p.lat.hemisphere, Hemisphere::East);
    assert_eq!(p.lon.hemisphere, Hemisphere::North);
}
