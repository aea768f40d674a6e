//! Mapping a parsed position to the flat output row shape.
//!
//! The row carries the name twice (there is no independent identifier
//! source), the two converted decimal angles, the elevation as handed in,
//! and fixed pipeline constants for the type tag, region and import-source
//! fields; every other descriptive field is absent. Elevation travels as
//! the raw numeric text of the source document: the library passes it
//! through unchanged and the output boundary interprets it.

use vstd::prelude::*;

use crate::decimal::{spec_to_decimal, to_decimal_degrees, DecimalDegrees};
use crate::position::Position;

verus! {

/// The fixed type tag every converted row carries.
pub open spec fn spec_type_tag() -> Seq<char> {
    "Airstrip"@
}

/// The fixed region code every converted row carries.
pub open spec fn spec_region_code() -> Seq<char> {
    "EP"@
}

/// The fixed import-source name every converted row carries.
pub open spec fn spec_import_filename() -> Seq<char> {
    "skydemon_PL_missing.airfields.xml"@
}

/// Configuration constant: the type tag, as an owned string.
pub fn type_tag() -> (r: String)
    ensures
        r@ == spec_type_tag(),
{
    String::from_str("Airstrip")
}

/// Configuration constant: the region code, as an owned string.
pub fn region_code() -> (r: String)
    ensures
        r@ == spec_region_code(),
{
    String::from_str("EP")
}

/// Configuration constant: the import-source name, as an owned string.
pub fn import_filename() -> (r: String)
    ensures
        r@ == spec_import_filename(),
{
    String::from_str("skydemon_PL_missing.airfields.xml")
}

/// One output row: the external tabular shape, one per airfield.
#[derive(Debug)]
pub struct OutputRecord {
    /// Fixed type tag ([`type_tag`]).
    pub waypoint_type: String,
    /// Airfield name as handed in.
    pub name: String,
    /// Identifier; always a copy of the name.
    pub ident: String,
    /// Converted latitude.
    pub latitude: DecimalDegrees,
    /// Converted longitude.
    pub longitude: DecimalDegrees,
    /// Elevation text as handed in, unchanged; absent when the source had
    /// none.
    pub elevation: Option<String>,
    /// Always absent.
    pub magnetic_declination: Option<String>,
    /// Always absent.
    pub tags: Option<String>,
    /// Always absent.
    pub description: Option<String>,
    /// Fixed region code ([`region_code`]).
    pub region: Option<String>,
    /// Always absent.
    pub visible_from: Option<i32>,
    /// Always absent.
    pub last_edit: Option<String>,
    /// Fixed import-source name ([`import_filename`]).
    pub import_filename: Option<String>,
}

/// Build the output row for one airfield from its parsed position, its
/// name, and its optional elevation text.
///
/// Both angles are converted exactly ([`spec_to_decimal`]); the name fills
/// both the name and identifier columns; elevation passes through
/// unchanged; the constant fields take the pipeline constants and every
/// other field is absent. Never fails on a well-formed position.
pub fn build_record(p: &Position, name: &str, elevation: Option<String>) -> (r: OutputRecord)
    requires
        p.lat.wf(),
        p.lon.wf(),
    ensures
        r.waypoint_type@ == spec_type_tag(),
        r.name@ == name@,
        r.ident@ == name@,
        r.latitude == spec_to_decimal(p.lat),
        r.longitude == spec_to_decimal(p.lon),
        r.elevation == elevation,
        r.magnetic_declination is None,
        r.tags is None,
        r.description is None,
        (r.region matches Some(x) && x@ == spec_region_code()),
        r.visible_from is None,
        r.last_edit is None,
        (r.import_filename matches Some(x) && x@ == spec_import_filename()),
{
    OutputRecord {
        waypoint_type: type_tag(),
        name: name.to_owned(),
        ident: name.to_owned(),
        latitude: to_decimal_degrees(&p.lat),
        longitude: to_decimal_degrees(&p.lon),
        elevation,
        magnetic_declination: None,
        tags: None,
        description: None,
        region: Some(region_code()),
        visible_from: None,
        last_edit: None,
        import_filename: Some(import_filename()),
    }
}

} // verus!
