//! Decimal digit sequences: their values, bounds, and rendering.
//!
//! The coordinate grammar is built from fixed-width runs of decimal digits.
//! This module gives the spec-level meaning of such a run (`digits_val`), the
//! executable parser for one run (`parse_digits`), the spec-level renderer
//! that writes a value back as digits (`render_digits`), and the lemmas that
//! relate the two directions.

use vstd::prelude::*;

verus! {

/// Ten to the power `n`, as a mathematical natural.
pub open spec fn pow10(n: nat) -> nat
    decreases n,
{
    if n == 0 {
        1
    } else {
        10 * pow10((n - 1) as nat)
    }
}

/// `c` is one of the ten ASCII decimal digits.
pub open spec fn is_dec_digit(c: char) -> bool {
    48 <= c as int && c as int <= 57
}

/// Numeric value of a single decimal digit character.
pub open spec fn digit_val(c: char) -> nat
    recommends
        is_dec_digit(c),
{
    (c as int - 48) as nat
}

/// The digit character for a value below ten.
pub open spec fn digit_char(d: nat) -> char
    recommends
        d < 10,
{
    if d == 0 {
        '0'
    } else if d == 1 {
        '1'
    } else if d == 2 {
        '2'
    } else if d == 3 {
        '3'
    } else if d == 4 {
        '4'
    } else if d == 5 {
        '5'
    } else if d == 6 {
        '6'
    } else if d == 7 {
        '7'
    } else if d == 8 {
        '8'
    } else {
        '9'
    }
}

/// Every character of `s` is a decimal digit.
pub open spec fn all_dec_digits(s: Seq<char>) -> bool {
    forall|i: int| 0 <= i < s.len() ==> is_dec_digit(s[i])
}

/// Value of a run of decimal digits read in the usual base-ten way.
/// The empty run has value zero.
pub open spec fn digits_val(s: Seq<char>) -> nat
    recommends
        all_dec_digits(s),
    decreases s.len(),
{
    if s.len() == 0 {
        0
    } else {
        digits_val(s.drop_last()) * 10 + digit_val(s.last())
    }
}

/// A run of `w` digits has value below ten to the `w`.
pub proof fn lemma_digits_val_bound(s: Seq<char>)
    requires
        all_dec_digits(s),
    ensures
        digits_val(s) < pow10(s.len()),
    decreases s.len(),
{
    if s.len() > 0 {
        assert(all_dec_digits(s.drop_last()));
        lemma_digits_val_bound(s.drop_last());
        assert(digit_val(s.last()) <= 9);
    }
}

/// Extending a digit run to the right never decreases its value.
pub proof fn lemma_digits_val_prefix_le(s: Seq<char>, j: int)
    requires
        0 <= j <= s.len(),
    ensures
        digits_val(s.subrange(0, j)) <= digits_val(s),
    decreases s.len() - j,
{
    if j < s.len() {
        let t = s.subrange(0, j + 1);
        assert(t.drop_last() =~= s.subrange(0, j));
        lemma_digits_val_prefix_le(s, j + 1);
        assert(digits_val(s.subrange(0, j + 1)) == digits_val(s.subrange(0, j)) * 10 + digit_val(
            s[j],
        ));
    } else {
        assert(s.subrange(0, j) =~= s);
    }
}

/// `pow10` splits over a sum of exponents.
pub proof fn lemma_pow10_add(a: nat, b: nat)
    ensures
        pow10(a + b) == pow10(a) * pow10(b),
    decreases a,
{
    if a == 0 {
        assert(pow10(a) == 1);
    } else {
        let x = pow10((a - 1) as nat);
        let y = pow10(b);
        lemma_pow10_add((a - 1) as nat, b);
        assert(((a - 1) as nat) + b == (a + b - 1) as nat);
        assert(pow10((a + b - 1) as nat) == x * y);
        assert(pow10(a + b) == 10 * (x * y));
        vstd::arithmetic::mul::lemma_mul_is_associative(10, x as int, y as int);
        assert(pow10(a) * pow10(b) == (10 * x) * y);
    }
}

/// Ten to the power `n`, executable, for small exponents.
pub fn pow10_u64(n: u32) -> (r: u64)
    requires
        n <= 12,
    ensures
        r == pow10(n as nat),
{
    let mut r: u64 = 1;
    let mut i: u32 = 0;
    while i < n
        invariant
            i <= n <= 12,
            r == pow10(i as nat),
        decreases n - i,
    {
        proof {
            reveal_with_fuel(pow10, 13);
            lemma_pow10_increases((i + 1) as nat, 12);
        }
        r = r * 10;
        i = i + 1;
    }
    r
}

/// `pow10` is monotone in the exponent.
pub proof fn lemma_pow10_increases(a: nat, b: nat)
    requires
        a <= b,
    ensures
        pow10(a) <= pow10(b),
    decreases b,
{
    if a < b {
        lemma_pow10_increases(a, (b - 1) as nat);
    }
}

/// Parse the characters of `s` between `from` (inclusive) and `to`
/// (exclusive) as an unsigned decimal number.
///
/// Returns the value exactly when every character in the range is a decimal
/// digit and the value fits in a `u32`; an empty range parses as zero.
pub fn parse_digits(s: &str, from: usize, to: usize) -> (r: Option<u32>)
    requires
        from <= to <= s@.len(),
    ensures
        match r {
            Some(v) => all_dec_digits(s@.subrange(from as int, to as int)) && v == digits_val(
                s@.subrange(from as int, to as int),
            ),
            None => !(all_dec_digits(s@.subrange(from as int, to as int)) && digits_val(
                s@.subrange(from as int, to as int),
            ) <= u32::MAX),
        },
{
    let ghost full = s@.subrange(from as int, to as int);
    let mut acc: u64 = 0;
    let mut i: usize = from;
    while i < to
        invariant
            from <= i <= to <= s@.len(),
            full == s@.subrange(from as int, to as int),
            all_dec_digits(s@.subrange(from as int, i as int)),
            acc == digits_val(s@.subrange(from as int, i as int)),
            acc <= u32::MAX,
        decreases to - i,
    {
        let c = s.get_char(i);
        let cv = c as u32;
        proof {
            assert(full[i - from] == s@[i as int]);
        }
        if cv < 48 || cv > 57 {
            return None;
        }
        let d: u64 = (cv - 48) as u64;
        let next: u64 = acc * 10 + d;
        proof {
            let pre = s@.subrange(from as int, i as int);
            let ext = s@.subrange(from as int, i as int + 1);
            assert(ext.drop_last() =~= pre);
            assert(ext.last() == s@[i as int]);
            assert(digits_val(ext) == digits_val(pre) * 10 + digit_val(s@[i as int]));
        }
        if next > u32::MAX as u64 {
            proof {
                lemma_digits_val_prefix_le(full, i + 1 - from);
                assert(full.subrange(0, i + 1 - from) =~= s@.subrange(from as int, i as int + 1));
            }
            return None;
        }
        acc = next;
        i = i + 1;
    }
    proof {
        assert(s@.subrange(from as int, i as int) =~= full);
    }
    Some(acc as u32)
}

/// The value `v` written as exactly `width` decimal digits, most significant
/// first; digits beyond `width` are dropped, so the result is faithful only
/// when `v < pow10(width)`.
pub open spec fn render_digits(v: nat, width: nat) -> Seq<char>
    decreases width,
{
    if width == 0 {
        Seq::empty()
    } else {
        render_digits(v / 10, (width - 1) as nat).push(digit_char(v % 10))
    }
}

/// The digit character of a value below ten is a digit with that value.
pub proof fn lemma_digit_char_val(d: nat)
    requires
        d < 10,
    ensures
        is_dec_digit(digit_char(d)),
        digit_val(digit_char(d)) == d,
{
}

/// Rendering produces `width` digit characters, and reading them back gives
/// the value again whenever it fits the width.
pub proof fn lemma_render_digits(v: nat, width: nat)
    ensures
        render_digits(v, width).len() == width,
        all_dec_digits(render_digits(v, width)),
        v < pow10(width) ==> digits_val(render_digits(v, width)) == v,
    decreases width,
{
    if width > 0 {
        lemma_render_digits(v / 10, (width - 1) as nat);
        lemma_digit_char_val(v % 10);
        let r = render_digits(v, width);
        let r0 = render_digits(v / 10, (width - 1) as nat);
        assert(r == r0.push(digit_char(v % 10)));
        assert(r.drop_last() =~= r0);
        assert(forall|i: int| 0 <= i < r.len() ==> is_dec_digit(#[trigger] r[i])) by {
            assert(forall|i: int| 0 <= i < r0.len() ==> is_dec_digit(#[trigger] r0[i]));
            assert(r[width - 1] == digit_char(v % 10));
            assert(forall|i: int| 0 <= i < width - 1 ==> r[i] == r0[i]);
        }
        if v < pow10(width) {
            assert(pow10(width) == 10 * pow10((width - 1) as nat));
            assert(v / 10 < pow10((width - 1) as nat));
            assert(digits_val(r) == digits_val(r0) * 10 + digit_val(digit_char(v % 10)));
        }
    }
}

/// A digit character as a one-character string slice.
fn digit_str(d: u32) -> (r: &'static str)
    requires
        d < 10,
    ensures
        r@ == seq![digit_char(d as nat)],
{
    let r: &'static str = match d {
        0 => "0",
        1 => "1",
        2 => "2",
        3 => "3",
        4 => "4",
        5 => "5",
        6 => "6",
        7 => "7",
        8 => "8",
        _ => "9",
    };
    proof {
        reveal_strlit("0");
        reveal_strlit("1");
        reveal_strlit("2");
        reveal_strlit("3");
        reveal_strlit("4");
        reveal_strlit("5");
        reveal_strlit("6");
        reveal_strlit("7");
        reveal_strlit("8");
        reveal_strlit("9");
        assert(r@ =~= seq![digit_char(d as nat)]);
    }
    r
}

/// Executable form of [`render_digits`]: `v` written as `width` decimal
/// digits.
pub fn render_digits_string(v: u32, width: usize) -> (r: String)
    ensures
        r@ == render_digits(v as nat, width as nat),
    decreases width,
{
    if width == 0 {
        let r = String::new();
        proof {
            assert(r@ =~= render_digits(v as nat, 0));
        }
        r
    } else {
        let mut r = render_digits_string(v / 10, width - 1);
        r.append(digit_str(v % 10));
        proof {
            assert((v / 10) as nat == (v as nat) / 10);
            assert((v % 10) as nat == (v as nat) % 10);
            assert(r@ =~= render_digits(v as nat, width as nat));
        }
        r
    }
}

/// Number of digits in the usual decimal writing of `v` (one digit for
/// zero).
pub open spec fn num_digits(v: nat) -> nat
    decreases v,
{
    if v < 10 {
        1
    } else {
        1 + num_digits(v / 10)
    }
}

/// Every value fits the width its own decimal writing takes.
pub proof fn lemma_num_digits_fits(v: nat)
    ensures
        num_digits(v) >= 1,
        v < pow10(num_digits(v)),
    decreases v,
{
    reveal_with_fuel(pow10, 3);
    if v < 10 {
    } else {
        lemma_num_digits_fits(v / 10);
        assert(pow10(num_digits(v)) == 10 * pow10(num_digits(v / 10)));
    }
}

/// No more digits are needed than any width the value fits.
pub proof fn lemma_num_digits_le(v: nat, k: nat)
    requires
        k >= 1,
        v < pow10(k),
    ensures
        num_digits(v) <= k,
    decreases k,
{
    if v >= 10 {
        assert(pow10(k) == 10 * pow10((k - 1) as nat));
        if k == 1 {
            assert(false);
        } else {
            lemma_num_digits_le(v / 10, (k - 1) as nat);
        }
    }
}

/// Executable form of [`num_digits`].
pub fn num_digits_u32(v: u32) -> (r: usize)
    ensures
        r == num_digits(v as nat),
{
    proof {
        reveal_with_fuel(pow10, 11);
        lemma_num_digits_le(v as nat, 10);
    }
    let mut x: u32 = v;
    let mut n: usize = 1;
    while x >= 10
        invariant
            n >= 1,
            num_digits(v as nat) == n - 1 + num_digits(x as nat),
            num_digits(v as nat) <= 10,
        decreases x,
    {
        proof {
            assert((x / 10) as nat == (x as nat) / 10);
            assert(num_digits(x as nat) >= 1);
        }
        x = x / 10;
        n = n + 1;
    }
    n
}

} // verus!
