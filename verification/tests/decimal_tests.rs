use airfield_waypoints::coordinate::parse_coordinate;
use airfield_waypoints::decimal::{to_decimal_degrees, DecimalDegrees, DECIMAL_SCALE};

fn as_f64(d: &DecimalDegrees) -> f64 {
    let magnitude = d.scaled as f64 / DECIMAL_SCALE as f64;
    if d.negative {
        -magnitude
    } else {
        magnitude
    }
}

#[test]
fn north_token_decimal() {
    let a = parse_coordinate("N523000").unwrap();
    let d = to_decimal_degrees(&a);
    assert!(!d.negative);
    assert_eq!(d.scaled, 189_000_000_000_000);
    assert!((as_f64(&d) - 52.5).abs() < 1e-9);
}

#[test]
fn west_token_decimal() {
    let a = parse_coordinate("W0174530").unwrap();
    let d = to_decimal_degrees(&a);
    assert!(d.negative);
    assert_eq!(d.scaled, 63_930_000_000_000);
    assert!((as_f64(&d) - (-(17.0 + 45.0 / 60.0 + 30.0 / 3600.0))).abs() < 1e-9);
    assert!((as_f64(&d) - (-17.758333333333333)).abs() < 1e-6);
}

#[test]
fn zero_degrees_south_stays_negative() {
    let a = parse_coordinate("S000000").unwrap();
    let d = to_decimal_degrees(&a);
    assert!(d.negative);
    assert_eq!(d.scaled, 0);
}

#[test]
fn zero_degrees_west_stays_negative() {
    let a = parse_coordinate("W0000000").unwrap();
    let d = to_decimal_degrees(&a);
    assert!(d.negative);
    assert_eq!(d.scaled, 0);
}

#[test]
fn formula_is_exact() {
    let a = parse_coordinate("N010203.4").unwrap();
    let d = to_decimal_degrees(&a);
    assert_eq!(
        d.scaled,
        1 * 3_600_000_000_000 + 2 * 60_000_000_000 + 3 * 1_000_000_000 + 400_000_000
    );
}

#[test]
fn nine_digit_fraction_is_exact() {
    let a = parse_coordinate("N000000.000000001").unwrap();
    let d = to_decimal_degrees(&a);
    assert_eq!(d.scaled, 1);
}

#[test]
fn boundary_longitude_decimal() {
    let a = parse_coordinate("E1800000").unwrap();
    let d = to_decimal_degrees(&a);
    assert!(!d.negative);
    assert_eq!(d.scaled, 180 * DECIMAL_SCALE);
    assert!((as_f64(&d) - 180.0).abs() < 1e-9);
}
