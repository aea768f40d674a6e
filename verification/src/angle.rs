//! The parsed shape of one single-axis coordinate token.
//!
//! An [`Angle`] keeps the hemisphere letter as data, so the sign survives
//! even when every numeric field is zero: a `"S000000"` token stays distinct
//! from `"N000000"` all the way to the decimal output.

use vstd::prelude::*;

use crate::digits::pow10;

verus! {

/// The hemisphere letter of a coordinate token.
///
/// The letter fixes both the sign of the angle (north and east positive,
/// south and west negative) and the width of the degrees field (three digits
/// for east/west, two for north/south).
#[derive(Debug, Clone, Copy, PartialEq, Eq, Structural)]
pub enum Hemisphere {
    North,
    East,
    West,
    South,
}

impl Hemisphere {
    /// South and west angles are negative.
    pub open spec fn is_negative(self) -> bool {
        match self {
            Hemisphere::West | Hemisphere::South => true,
            Hemisphere::North | Hemisphere::East => false,
        }
    }

    /// Width of the degrees field for this hemisphere: longitudes can reach
    /// three digits, latitudes two.
    pub open spec fn degrees_width(self) -> nat {
        match self {
            Hemisphere::East | Hemisphere::West => 3,
            Hemisphere::North | Hemisphere::South => 2,
        }
    }

    /// The single-character prefix that encodes this hemisphere.
    pub open spec fn letter(self) -> char {
        match self {
            Hemisphere::North => 'N',
            Hemisphere::East => 'E',
            Hemisphere::West => 'W',
            Hemisphere::South => 'S',
        }
    }
}

/// The hemisphere encoded by a token's first character, if it is one of the
/// four recognized letters.
pub open spec fn hemisphere_of_char(c: char) -> Option<Hemisphere> {
    if c == 'N' {
        Some(Hemisphere::North)
    } else if c == 'E' {
        Some(Hemisphere::East)
    } else if c == 'W' {
        Some(Hemisphere::West)
    } else if c == 'S' {
        Some(Hemisphere::South)
    } else {
        None
    }
}

/// Executable form of [`hemisphere_of_char`].
pub fn hemisphere_of(c: char) -> (r: Option<Hemisphere>)
    ensures
        r == hemisphere_of_char(c),
{
    match c {
        'N' => Some(Hemisphere::North),
        'E' => Some(Hemisphere::East),
        'W' => Some(Hemisphere::West),
        'S' => Some(Hemisphere::South),
        _ => None,
    }
}

/// One parsed single-axis coordinate: a hemisphere plus unsigned numeric
/// fields.
///
/// Seconds are kept exactly as a decimal fixed-point value
/// `sec_whole + sec_frac / 10^sec_frac_digits`, so no precision is lost
/// between parsing and conversion. The hemisphere carries the sign; the
/// numeric fields are always non-negative.
#[derive(Debug, Clone, Copy, PartialEq, Eq, Structural)]
pub struct Angle {
    /// Hemisphere letter of the source token; fixes the sign.
    pub hemisphere: Hemisphere,
    /// Whole degrees, as read from the fixed-width degrees field.
    pub degrees: u32,
    /// Whole minutes, as read from the two-digit minutes field.
    pub minutes: u32,
    /// Whole part of the seconds field.
    pub sec_whole: u32,
    /// Fractional part of the seconds field, as an integer numerator.
    pub sec_frac: u32,
    /// Number of fractional digits: `sec_frac` counts units of
    /// `10^-sec_frac_digits` seconds.
    pub sec_frac_digits: u32,
}

impl Angle {
    /// Field bounds that every parsed angle satisfies: the degrees and
    /// minutes values fit their fixed-width fields, and the seconds fraction
    /// has at most nine digits and fits its own digit count.
    pub open spec fn wf(self) -> bool {
        &&& self.degrees < pow10(self.hemisphere.degrees_width())
        &&& self.minutes < 100
        &&& self.sec_frac_digits <= 9
        &&& self.sec_frac < pow10(self.sec_frac_digits as nat)
    }

    /// Executable check of [`Angle::wf`], for callers outside verified code.
    pub fn check_wf(&self) -> (r: bool)
        ensures
            r == self.wf(),
    {
        proof {
            reveal_with_fuel(pow10, 11);
        }
        let deg_bound: u32 = match self.hemisphere {
            Hemisphere::East | Hemisphere::West => 1000,
            Hemisphere::North | Hemisphere::South => 100,
        };
        self.degrees < deg_bound && self.minutes < 100 && self.sec_frac_digits <= 9
            && (self.sec_frac as u64) < crate::digits::pow10_u64(self.sec_frac_digits)
    }
}

} // verus!
