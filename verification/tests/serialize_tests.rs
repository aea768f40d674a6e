use airfield_waypoints::coordinate::parse_coordinate;
use airfield_waypoints::serialize::serialize_coordinate;

#[test]
fn round_trip_plain_token() {
    let a = parse_coordinate("N523000").unwrap();
    let t = serialize_coordinate(&a);
    assert_eq!(t, "N523000");
    assert_eq!(parse_coordinate(&t).unwrap(), a);
}

#[test]
fn round_trip_fractional_token() {
    let a = parse_coordinate("W0174530.50").unwrap();
    let t = serialize_coordinate(&a);
    assert_eq!(t, "W0174530.50");
    assert_eq!(parse_coordinate(&t).unwrap(), a);
}

#[test]
fn round_trip_pads_empty_whole_seconds() {
    let a = parse_coordinate("N5230.5").unwrap();
    let t = serialize_coordinate(&a);
    assert_eq!(t, "N523000.5");
    assert_eq!(parse_coordinate(&t).unwrap(), a);
}

#[test]
fn round_trip_long_whole_seconds() {
    let a = parse_coordinate("S5230123").unwrap();
    let t = serialize_coordinate(&a);
    assert_eq!(t, "S5230123");
    assert_eq!(parse_coordinate(&t).unwrap(), a);
}

#[test]
fn round_trip_zero_token() {
    let a = parse_coordinate("E0000000").unwrap();
    let t = serialize_coordinate(&a);
    assert_eq!(t, "E0000000");
    assert_eq!(parse_coordinate(&t).unwrap(), a);
}
