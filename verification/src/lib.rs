//! Conversion core for airfield waypoint records.
//!
//! The library parses compact hemisphere-prefixed degrees/minutes/seconds
//! coordinate tokens (for example `"N523000"` or `"W0174530"`), combined
//! "latitude longitude" position tokens, converts parsed angles to signed
//! decimal degrees held as an exact scaled integer, and maps a position plus
//! a name and an optional elevation to the flat output row shape.

pub mod angle;
pub mod coordinate;
pub mod decimal;
pub mod digits;
pub mod position;
pub mod record;
pub mod scan;
pub mod serialize;
