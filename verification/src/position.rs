//! Parsing a combined "latitude longitude" position token.
//!
//! The token is split on its first space; each half must then satisfy the
//! single-axis coordinate grammar. The parser is deliberately permissive
//! about axis: it does not cross-check the hemisphere letters against their
//! place in the token, so the first half is taken as latitude and the
//! second as longitude whatever letters they carry.

use vstd::prelude::*;

use crate::angle::Angle;
use crate::coordinate::{parse_coordinate, spec_parse_coordinate};
use crate::scan::{find_char, find_char_in};

verus! {

/// Failure of a combined position parse: no space to split on, or either
/// half malformed as a coordinate token.
#[derive(Debug, Clone, Copy, PartialEq, Eq, Structural)]
pub struct PositionFormatError;

/// A parsed position: the two angles of the token, in token order.
#[derive(Debug, Clone, Copy, PartialEq, Eq, Structural)]
pub struct Position {
    /// Angle parsed from the half before the first space.
    pub lat: Angle,
    /// Angle parsed from the half after the first space.
    pub lon: Angle,
}

/// Meaning of a combined position token: the parsed [`Position`], or `None`
/// when the token has no space or either half is malformed.
pub open spec fn spec_parse_position(s: Seq<char>) -> Option<Position> {
    let k = find_char(s, ' ');
    if k == -1 {
        None
    } else {
        let lat = spec_parse_coordinate(s.subrange(0, k));
        let lon = spec_parse_coordinate(s.subrange(k + 1, s.len() as int));
        match (lat, lon) {
            (Some(lat), Some(lon)) => Some(Position { lat, lon }),
            _ => None,
        }
    }
}

/// Parse a combined position token, for example `"N523000 E0174530"`.
///
/// Returns the parsed position exactly when the token splits on a space
/// into two well-formed coordinate tokens; every malformed token is
/// rejected, and no partial position is ever returned.
pub fn parse_position(s: &str) -> (r: Result<Position, PositionFormatError>)
    ensures
        match r {
            Ok(p) => spec_parse_position(s@) == Some(p),
            Err(_) => spec_parse_position(s@) is None,
        },
{
    let n = s.unicode_len();
    let k = match find_char_in(s, ' ') {
        Some(k) => k,
        None => {
            return Err(PositionFormatError);
        },
    };
    let lat_token = s.substring_char(0, k);
    let lon_token = s.substring_char(k + 1, n);
    let lat = match parse_coordinate(lat_token) {
        Ok(a) => a,
        Err(_) => {
            return Err(PositionFormatError);
        },
    };
    let lon = match parse_coordinate(lon_token) {
        Ok(a) => a,
        Err(_) => {
            return Err(PositionFormatError);
        },
    };
    Ok(Position { lat, lon })
}

/// A token with no space anywhere cannot parse as a position.
pub proof fn lemma_no_space_fails(s: Seq<char>)
    requires
        forall|i: int| 0 <= i < s.len() ==> s[i] != ' ',
    ensures
        spec_parse_position(s) is None,
{
    crate::scan::lemma_find_char_none(s, ' ');
}

} // verus!
