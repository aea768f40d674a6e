use airfield_waypoints::position::parse_position;
use airfield_waypoints::record::build_record;

#[test]
fn builds_record_fields() {
    let p = parse_position("N523000 E0174530").unwrap();
    let r = build_record(&p, "Test Field", Some("123.5".to_string()));
    assert_eq!(r.waypoint_type, "Airstrip");
    assert_eq!(r.name, "Test Field");
    assert_eq!(r.ident, "Test Field");
    assert!(!r.latitude.negative);
    assert_eq!(r.latitude.scaled, 189_000_000_000_000);
    assert!(!r.longitude.negative);
    assert_eq!(r.longitude.scaled, 63_930_000_000_000);
    assert_eq!(r.elevation, Some("123.5".to_string()));
    assert_eq!(r.magnetic_declination, None);
    assert_eq!(r.tags, None);
    assert_eq!(r.description, None);
    assert_eq!(r.region, Some("EP".to_string()));
    assert_eq!(r.visible_from, None);
    assert_eq!(r.last_edit, None);
    assert_eq!(r.import_filename, Some("skydemon_PL_missing.airfields.xml".to_string()));
}

#[test]
fn elevation_absent_stays_absent() {
    let p = parse_position("S000000 W0000000").unwrap();
    let r = build_record(&p, "Zero", None);
    assert_eq!(r.elevation, None);
    assert!(r.latitude.negative);
    assert_eq!(r.latitude.scaled, 0);
    assert!(r.longitude.negative);
    assert_eq!(r.longitude.scaled, 0);
}
