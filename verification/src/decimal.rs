//! Conversion of a parsed angle to signed decimal degrees.
//!
//! The decimal value `sign * (degrees + minutes/60 + seconds/3600)` is held
//! exactly: [`DecimalDegrees`] keeps the sign as its own field — so a zero
//! magnitude in the southern or western hemisphere stays negative — and the
//! magnitude as an integer count of `1/DECIMAL_SCALE` degree units. With at
//! most nine fractional seconds digits the scaling is exact: no precision
//! is lost anywhere between token and output value.

use vstd::prelude::*;

use crate::angle::Angle;
use crate::digits::{lemma_pow10_add, lemma_pow10_increases, pow10, pow10_u64};

verus! {

/// Number of scaled units per degree: 3600 * 10^9, so that whole seconds
/// contribute exactly 10^9 units and a nine-digit second fraction is still
/// integral.
pub const DECIMAL_SCALE: u64 = 3_600_000_000_000;

/// A signed decimal-degrees value: `(-1 if negative else 1) * scaled /
/// DECIMAL_SCALE` degrees.
///
/// The sign is a field of its own rather than the sign of a signed integer,
/// so negative zero is representable and a `"S000000"` token keeps its
/// hemisphere through conversion.
#[derive(Debug, Clone, Copy, PartialEq, Eq, Structural)]
pub struct DecimalDegrees {
    /// True for southern and western angles.
    pub negative: bool,
    /// Magnitude in units of `1/DECIMAL_SCALE` degree.
    pub scaled: u64,
}

/// Magnitude of an angle in scaled units, as an unbounded integer:
/// `degrees + minutes/60 + (sec_whole + sec_frac/10^sec_frac_digits)/3600`
/// degrees, all multiplied out by [`DECIMAL_SCALE`].
pub open spec fn angle_scaled(a: Angle) -> int
    recommends
        a.sec_frac_digits <= 9,
{
    a.degrees * 3_600_000_000_000 + a.minutes * 60_000_000_000 + a.sec_whole * 1_000_000_000
        + a.sec_frac * pow10((9 - a.sec_frac_digits) as nat)
}

/// Meaning of converting an angle: sign from the hemisphere, magnitude the
/// scaled formula value.
pub open spec fn spec_to_decimal(a: Angle) -> DecimalDegrees {
    DecimalDegrees { negative: a.hemisphere.is_negative(), scaled: angle_scaled(a) as u64 }
}

/// For a well-formed angle the scaled magnitude fits a `u64`, so the
/// conversion is the exact formula value.
pub proof fn lemma_angle_scaled_fits(a: Angle)
    requires
        a.wf(),
    ensures
        0 <= angle_scaled(a) <= u64::MAX,
        spec_to_decimal(a).scaled == angle_scaled(a),
{
    reveal_with_fuel(pow10, 11);
    let d = a.sec_frac_digits as nat;
    let m = pow10((9 - d) as nat);
    lemma_pow10_add(d, (9 - d) as nat);
    lemma_pow10_increases(0, (9 - d) as nat);
    assert(a.sec_frac * m < 1_000_000_000) by (nonlinear_arith)
        requires
            a.sec_frac < pow10(d),
            pow10(d) * m == 1_000_000_000,
            m >= 1,
    ;
    assert(a.degrees < 1000);
}

/// Parsing a token and converting the result yields exactly
/// `sign * (degrees + minutes/60 + seconds/3600)` over the token's own
/// fields: the sign comes from the hemisphere letter alone, and the scaled
/// magnitude is the formula over the digit values of the degrees and
/// minutes fields and the seconds value, with nothing truncated or
/// rounded.
pub proof fn lemma_parse_then_convert(s: Seq<char>, a: Angle)
    requires
        crate::coordinate::spec_parse_coordinate(s) == Some(a),
    ensures
        spec_to_decimal(a).negative == (s[0] == 'W' || s[0] == 'S'),
        spec_to_decimal(a).scaled == angle_scaled(a),
        a.degrees == crate::digits::digits_val(
            s.subrange(1, 1 + a.hemisphere.degrees_width() as int),
        ),
        a.minutes == crate::digits::digits_val(
            s.subrange(
                1 + a.hemisphere.degrees_width() as int,
                3 + a.hemisphere.degrees_width() as int,
            ),
        ),
{
    crate::coordinate::lemma_parse_coordinate_wf(s);
    lemma_angle_scaled_fits(a);
    reveal_with_fuel(pow10, 11);
    let deg = s.subrange(1, 1 + a.hemisphere.degrees_width() as int);
    let min = s.subrange(
        1 + a.hemisphere.degrees_width() as int,
        3 + a.hemisphere.degrees_width() as int,
    );
    crate::digits::lemma_digits_val_bound(deg);
    crate::digits::lemma_digits_val_bound(min);
}

/// The sign is never lost: a token in the southern or western hemisphere
/// converts to a negative value even when every numeric field — the
/// degrees field included — is all zeros.
pub proof fn lemma_sign_preserved(s: Seq<char>, a: Angle)
    requires
        crate::coordinate::spec_parse_coordinate(s) == Some(a),
        s[0] == 'S' || s[0] == 'W',
    ensures
        spec_to_decimal(a).negative,
{
}

/// Convert a parsed angle to signed decimal degrees.
///
/// The result is exact: `scaled` is the formula
/// `degrees + minutes/60 + seconds/3600` multiplied out by
/// [`DECIMAL_SCALE`], and `negative` holds exactly for the southern and
/// western hemispheres — also when every numeric field is zero.
pub fn to_decimal_degrees(a: &Angle) -> (r: DecimalDegrees)
    requires
        a.wf(),
    ensures
        r == spec_to_decimal(*a),
        r.scaled == angle_scaled(*a),
        r.negative == a.hemisphere.is_negative(),
{
    proof {
        lemma_angle_scaled_fits(*a);
        reveal_with_fuel(pow10, 11);
    }
    let m = pow10_u64(9 - a.sec_frac_digits);
    let negative = match a.hemisphere {
        crate::angle::Hemisphere::West | crate::angle::Hemisphere::South => true,
        crate::angle::Hemisphere::North | crate::angle::Hemisphere::East => false,
    };
    let scaled = (a.degrees as u64) * 3_600_000_000_000 + (a.minutes as u64) * 60_000_000_000 + (
    a.sec_whole as u64) * 1_000_000_000 + (a.sec_frac as u64) * m;
    DecimalDegrees { negative, scaled }
}

} // verus!
