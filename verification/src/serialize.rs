//! Writing a parsed angle back as a coordinate token.
//!
//! The serializer emits the same fixed-width form the parser reads: the
//! hemisphere letter, the degrees field at its hemisphere's width, two
//! minutes digits, at least two whole-seconds digits, and the seconds
//! fraction after a decimal point when there is one. Re-parsing the output
//! recovers the angle exactly ([`lemma_parse_round_trip`]).

use vstd::prelude::*;

use crate::angle::{hemisphere_of_char, Angle, Hemisphere};
use crate::coordinate::{
    lemma_parse_coordinate_wf, spec_parse_coordinate, spec_parse_seconds,
};
use crate::digits::{
    all_dec_digits, digits_val, is_dec_digit, lemma_num_digits_fits, lemma_pow10_increases,
    lemma_render_digits, num_digits, num_digits_u32, pow10, render_digits, render_digits_string,
};
use crate::scan::{find_char, lemma_find_char_first, lemma_find_char_none};

verus! {

/// Width of the serialized whole-seconds run: the digits the value needs,
/// but at least the two the compact form always carries.
pub open spec fn sec_whole_width(v: nat) -> nat {
    if num_digits(v) < 2 {
        2
    } else {
        num_digits(v)
    }
}

/// The serialized seconds field: whole-seconds digits, then the fraction
/// digits after a point when the angle has fraction digits.
pub open spec fn spec_serialize_seconds(a: Angle) -> Seq<char> {
    render_digits(a.sec_whole as nat, sec_whole_width(a.sec_whole as nat)) + (
    if a.sec_frac_digits == 0 {
        Seq::<char>::empty()
    } else {
        seq!['.'] + render_digits(a.sec_frac as nat, a.sec_frac_digits as nat)
    })
}

/// The serialized coordinate token: hemisphere letter, degrees at the
/// hemisphere's width, two minutes digits, then the seconds field.
pub open spec fn spec_serialize_coordinate(a: Angle) -> Seq<char> {
    seq![a.hemisphere.letter()] + render_digits(a.degrees as nat, a.hemisphere.degrees_width())
        + render_digits(a.minutes as nat, 2) + spec_serialize_seconds(a)
}

/// The letter of a hemisphere, as a one-character string slice.
fn letter_str(h: Hemisphere) -> (r: &'static str)
    ensures
        r@ == seq![h.letter()],
{
    let r: &'static str = match h {
        Hemisphere::North => "N",
        Hemisphere::East => "E",
        Hemisphere::West => "W",
        Hemisphere::South => "S",
    };
    proof {
        reveal_strlit("N");
        reveal_strlit("E");
        reveal_strlit("W");
        reveal_strlit("S");
        assert(r@ =~= seq![h.letter()]);
    }
    r
}

/// Write `a` back as a coordinate token in the fixed-width form of
/// [`spec_serialize_coordinate`].
pub fn serialize_coordinate(a: &Angle) -> (r: String)
    ensures
        r@ == spec_serialize_coordinate(*a),
{
    let mut r = String::from_str(letter_str(a.hemisphere));
    let deg_width: usize = match a.hemisphere {
        Hemisphere::East | Hemisphere::West => 3,
        Hemisphere::North | Hemisphere::South => 2,
    };
    let deg = render_digits_string(a.degrees, deg_width);
    r.append(deg.as_str());
    let min = render_digits_string(a.minutes, 2);
    r.append(min.as_str());
    let ndw = num_digits_u32(a.sec_whole);
    let whole_width: usize = if ndw < 2 {
        2
    } else {
        ndw
    };
    let whole = render_digits_string(a.sec_whole, whole_width);
    r.append(whole.as_str());
    if a.sec_frac_digits > 0 {
        let dot = ".";
        proof {
            reveal_strlit(".");
            assert(dot@ =~= seq!['.']);
        }
        r.append(dot);
        let frac = render_digits_string(a.sec_frac, a.sec_frac_digits as usize);
        r.append(frac.as_str());
    }
    proof {
        assert(r@ =~= spec_serialize_coordinate(*a));
    }
    r
}

/// Digit runs contain no decimal point and no space.
proof fn lemma_digits_free_of(s: Seq<char>)
    requires
        all_dec_digits(s),
    ensures
        forall|i: int| 0 <= i < s.len() ==> s[i] != '.',
        forall|i: int| 0 <= i < s.len() ==> s[i] != ' ',
{
    assert forall|i: int| 0 <= i < s.len() implies s[i] != '.' && s[i] != ' ' by {
        assert(is_dec_digit(s[i]));
    }
}

/// Serializing a well-formed angle and parsing the result gives the angle
/// back: the fixed-width form loses nothing.
pub proof fn lemma_serialize_parse_inverse(a: Angle)
    requires
        a.wf(),
    ensures
        spec_parse_coordinate(spec_serialize_coordinate(a)) == Some(a),
{
    reveal_with_fuel(pow10, 11);
    let h = a.hemisphere;
    let wd = h.degrees_width();
    let ww = sec_whole_width(a.sec_whole as nat);
    let d = a.sec_frac_digits as nat;
    let dd = render_digits(a.degrees as nat, wd);
    let mm = render_digits(a.minutes as nat, 2);
    let sw = render_digits(a.sec_whole as nat, ww);
    let fr = render_digits(a.sec_frac as nat, d);
    let t = spec_serialize_coordinate(a);
    lemma_render_digits(a.degrees as nat, wd);
    lemma_render_digits(a.minutes as nat, 2);
    lemma_render_digits(a.sec_whole as nat, ww);
    lemma_render_digits(a.sec_frac as nat, d);
    lemma_num_digits_fits(a.sec_whole as nat);
    if num_digits(a.sec_whole as nat) < 2 {
        lemma_pow10_increases(num_digits(a.sec_whole as nat), ww);
    }
    assert(a.sec_whole < pow10(ww));
    let sec_all = spec_serialize_seconds(a);
    assert(t[0] == h.letter());
    assert(hemisphere_of_char(h.letter()) == Some(h));
    let de = 1 + wd;
    assert(t.len() == 1 + wd + 2 + sec_all.len());
    assert(sec_all.len() == ww + (if d == 0 { 0int } else { 1int + d }));
    assert(t.len() >= de + 3);
    assert(t.subrange(1, de as int) =~= dd);
    assert(t.subrange(de as int, de as int + 2) =~= mm);
    let sec = t.subrange(de as int + 2, t.len() as int);
    assert(sec =~= sec_all);
    lemma_digits_free_of(sw);
    lemma_digits_free_of(fr);
    if d == 0 {
        assert(sec =~= sw);
        lemma_find_char_none(sec, '.');
        assert(digits_val(sec) == a.sec_whole);
        assert(a.sec_frac == 0);
        let parsed = spec_parse_coordinate(t).unwrap();
        assert(parsed.hemisphere == a.hemisphere);
        assert(parsed.degrees == a.degrees);
        assert(parsed.minutes == a.minutes);
        assert(parsed.sec_whole == a.sec_whole);
        assert(parsed.sec_frac == 0);
        assert(parsed.sec_frac_digits == 0);
        assert(spec_parse_coordinate(t) == Some(a));
    } else {
        assert(sec =~= sw + seq!['.'] + fr);
        assert(sec[ww as int] == '.');
        assert(forall|i: int| 0 <= i < ww ==> sec[i] == sw[i]);
        lemma_find_char_first(sec, '.', ww as int);
        assert(find_char(sec, '.') == ww);
        assert(sec.len() == ww + 1 + d);
        let whole_part = sec.subrange(0, ww as int);
        let frac_part = sec.subrange(ww as int + 1, sec.len() as int);
        assert(whole_part =~= sw);
        assert(frac_part =~= fr);
        assert(digits_val(whole_part) == a.sec_whole);
        assert(digits_val(frac_part) == a.sec_frac);
        assert(frac_part.len() == d <= 9);
        assert(spec_parse_seconds(sec) == Some(
            (a.sec_whole as nat, a.sec_frac as nat, a.sec_frac_digits as nat),
        ));
        let parsed = spec_parse_coordinate(t).unwrap();
        assert(parsed == a);
        assert(spec_parse_coordinate(t) == Some(a));
    }
}

/// Round trip: any token the coordinate parser accepts re-serializes to a
/// token that parses to the identical angle.
pub proof fn lemma_parse_round_trip(s: Seq<char>, a: Angle)
    requires
        spec_parse_coordinate(s) == Some(a),
    ensures
        spec_parse_coordinate(spec_serialize_coordinate(a)) == Some(a),
{
    lemma_parse_coordinate_wf(s);
    lemma_serialize_parse_inverse(a);
}

} // verus!
