//! Parsing one single-axis coordinate token.
//!
//! Grammar: the first character is a hemisphere letter from `{N, E, W, S}`.
//! After it come three fixed-position numeric fields: degrees (two digits
//! for `N`/`S`, three for `E`/`W`), two minutes digits, and a seconds field
//! running to the end of the token. The seconds field is an unsigned decimal
//! number: digit runs around at most one decimal point, with at least one
//! digit in all. Any violation — an unrecognized first letter, a field cut
//! short by the end of the token, a non-digit where a digit is due, a whole
//! seconds value too large for a machine word, or more than nine fractional
//! digits — is a [`CoordinateFormatError`].

use vstd::prelude::*;

use crate::angle::{hemisphere_of, hemisphere_of_char, Angle};
use crate::digits::{all_dec_digits, digits_val, lemma_digits_val_bound, parse_digits, pow10};
use crate::scan::{find_char, find_char_in};

verus! {

/// Failure of a single-axis coordinate parse. Carries no further detail:
/// the token as a whole is malformed.
#[derive(Debug, Clone, Copy, PartialEq, Eq, Structural)]
pub struct CoordinateFormatError;

/// Meaning of the seconds field `s`: `(whole, frac, frac_digits)` such that
/// the field denotes `whole + frac / 10^frac_digits` seconds, or `None`
/// when the field is malformed.
///
/// The field must contain at least one digit and at most one decimal point.
/// The whole part must fit a `u32` and the fraction may have at most nine
/// digits, so that downstream conversion is exact in machine words.
pub open spec fn spec_parse_seconds(s: Seq<char>) -> Option<(nat, nat, nat)> {
    let k = find_char(s, '.');
    if s.len() == 0 {
        None
    } else if k == -1 {
        if all_dec_digits(s) && digits_val(s) <= u32::MAX {
            Some((digits_val(s), 0, 0))
        } else {
            None
        }
    } else {
        let whole = s.subrange(0, k);
        let frac = s.subrange(k + 1, s.len() as int);
        if s.len() == 1 {
            None
        } else if all_dec_digits(whole) && all_dec_digits(frac) && digits_val(whole) <= u32::MAX
            && frac.len() <= 9 {
            Some((digits_val(whole), digits_val(frac), frac.len()))
        } else {
            None
        }
    }
}

/// Meaning of a whole coordinate token: the parsed [`Angle`], or `None`
/// when the token is malformed.
pub open spec fn spec_parse_coordinate(s: Seq<char>) -> Option<Angle> {
    if s.len() == 0 {
        None
    } else {
        match hemisphere_of_char(s[0]) {
            None => None,
            Some(h) => {
                let de = 1 + h.degrees_width();
                if s.len() < de + 3 {
                    None
                } else {
                    let deg = s.subrange(1, de as int);
                    let min = s.subrange(de as int, de as int + 2);
                    let sec = s.subrange(de as int + 2, s.len() as int);
                    if all_dec_digits(deg) && all_dec_digits(min) {
                        match spec_parse_seconds(sec) {
                            None => None,
                            Some((w, f, d)) => Some(
                                Angle {
                                    hemisphere: h,
                                    degrees: digits_val(deg) as u32,
                                    minutes: digits_val(min) as u32,
                                    sec_whole: w as u32,
                                    sec_frac: f as u32,
                                    sec_frac_digits: d as u32,
                                },
                            ),
                        }
                    } else {
                        None
                    }
                }
            },
        }
    }
}

/// A token that does not begin with one of the four hemisphere letters is
/// rejected, whatever follows: there is no recovery and no default
/// hemisphere.
pub proof fn lemma_bad_hemisphere_fails(s: Seq<char>)
    requires
        s.len() == 0 || hemisphere_of_char(s[0]) is None,
    ensures
        spec_parse_coordinate(s) is None,
{
}

/// Every angle a token parses to satisfies the field bounds of
/// [`Angle::wf`]: the fixed widths bound degrees and minutes, and the
/// seconds grammar bounds the fraction.
pub proof fn lemma_parse_coordinate_wf(s: Seq<char>)
    ensures
        spec_parse_coordinate(s) matches Some(a) ==> a.wf(),
{
    reveal_with_fuel(pow10, 11);
    if spec_parse_coordinate(s) is Some {
        let h = hemisphere_of_char(s[0]).unwrap();
        let de = 1 + h.degrees_width();
        let deg = s.subrange(1, de as int);
        let min = s.subrange(de as int, de as int + 2);
        let sec = s.subrange(de as int + 2, s.len() as int);
        lemma_digits_val_bound(deg);
        lemma_digits_val_bound(min);
        let k = find_char(sec, '.');
        if k != -1 {
            let frac = sec.subrange(k + 1, sec.len() as int);
            lemma_digits_val_bound(frac);
            crate::digits::lemma_pow10_increases(frac.len(), 9);
        }
    }
}

/// Parse one coordinate token, for example `"N523000"` or `"W0174530.5"`.
///
/// Returns the parsed angle exactly when the token satisfies the grammar of
/// [`spec_parse_coordinate`]; every malformed token is rejected.
pub fn parse_coordinate(s: &str) -> (r: Result<Angle, CoordinateFormatError>)
    ensures
        match r {
            Ok(a) => spec_parse_coordinate(s@) == Some(a),
            Err(_) => spec_parse_coordinate(s@) is None,
        },
{
    let n = s.unicode_len();
    if n == 0 {
        return Err(CoordinateFormatError);
    }
    let h = match hemisphere_of(s.get_char(0)) {
        Some(h) => h,
        None => {
            return Err(CoordinateFormatError);
        },
    };
    let de: usize = match h {
        crate::angle::Hemisphere::East | crate::angle::Hemisphere::West => 4,
        crate::angle::Hemisphere::North | crate::angle::Hemisphere::South => 3,
    };
    if n < de + 3 {
        return Err(CoordinateFormatError);
    }
    let ghost deg_field = s@.subrange(1, de as int);
    let ghost min_field = s@.subrange(de as int, de as int + 2);
    let degrees = match parse_digits(s, 1, de) {
        Some(v) => v,
        None => {
            proof {
                if all_dec_digits(deg_field) {
                    lemma_digits_val_bound(deg_field);
                    reveal_with_fuel(pow10, 5);
                }
            }
            return Err(CoordinateFormatError);
        },
    };
    let minutes = match parse_digits(s, de, de + 2) {
        Some(v) => v,
        None => {
            proof {
                if all_dec_digits(min_field) {
                    lemma_digits_val_bound(min_field);
                    reveal_with_fuel(pow10, 5);
                }
            }
            return Err(CoordinateFormatError);
        },
    };
    let sec = s.substring_char(de + 2, n);
    let sec_len = n - (de + 2);
    proof {
        assert(sec@ == s@.subrange(de as int + 2, n as int));
        assert(sec@.len() == sec_len);
    }
    match find_char_in(sec, '.') {
        None => {
            match parse_digits(sec, 0, sec_len) {
                Some(w) => {
                    proof {
                        assert(sec@.subrange(0, sec_len as int) =~= sec@);
                    }
                    Ok(
                        Angle {
                            hemisphere: h,
                            degrees,
                            minutes,
                            sec_whole: w,
                            sec_frac: 0,
                            sec_frac_digits: 0,
                        },
                    )
                },
                None => {
                    proof {
                        assert(sec@.subrange(0, sec_len as int) =~= sec@);
                    }
                    Err(CoordinateFormatError)
                },
            }
        },
        Some(k) => {
            if sec_len == 1 {
                return Err(CoordinateFormatError);
            }
            let frac_len = sec_len - k - 1;
            if frac_len > 9 {
                return Err(CoordinateFormatError);
            }
            let ghost whole_field = sec@.subrange(0, k as int);
            let ghost frac_field = sec@.subrange(k as int + 1, sec_len as int);
            let w = match parse_digits(sec, 0, k) {
                Some(v) => v,
                None => {
                    return Err(CoordinateFormatError);
                },
            };
            let f = match parse_digits(sec, k + 1, sec_len) {
                Some(v) => v,
                None => {
                    proof {
                        if all_dec_digits(frac_field) {
                            lemma_digits_val_bound(frac_field);
                            reveal_with_fuel(pow10, 11);
                            crate::digits::lemma_pow10_increases(frac_field.len(), 9);
                        }
                    }
                    return Err(CoordinateFormatError);
                },
            };
            Ok(
                Angle {
                    hemisphere: h,
                    degrees,
                    minutes,
                    sec_whole: w,
                    sec_frac: f,
                    sec_frac_digits: frac_len as u32,
                },
            )
        },
    }
}

} // verus!
