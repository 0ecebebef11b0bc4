//! Decimal text for fixed-point values.
//!
//! Temperatures and fan speeds are `i32` counts of thousandths: `50500`
//! stands for 50.5. This module reads and writes such values, and plain
//! natural numbers, as decimal text.

use vstd::prelude::*;
use vstd::string::*;

verus! {

pub open spec fn is_digit(c: char) -> bool {
    '0' <= c && c <= '9'
}

/// The value of the decimal digit `c`.
pub open spec fn digit_value(c: char) -> int {
    c as int - '0' as int
}

/// The decimal digit that stands for `d`, for `0 <= d <= 9`.
pub open spec fn digit_char(d: int) -> char {
    (d + '0' as int) as char
}

pub open spec fn all_digits(s: Seq<char>) -> bool {
    forall|i: int| 0 <= i < s.len() ==> is_digit(#[trigger] s[i])
}

/// The number that a run of decimal digits denotes; zero for the empty run.
pub open spec fn digits_value(s: Seq<char>) -> int
    decreases s.len(),
{
    if s.len() == 0 {
        0
    } else {
        digits_value(s.drop_last()) * 10 + digit_value(s.last())
    }
}

/// The number of decimal digits that `s` starts with.
pub open spec fn leading_digits(s: Seq<char>) -> nat
    decreases s.len(),
{
    if s.len() == 0 || !is_digit(s[0]) {
        0
    } else {
        1 + leading_digits(s.skip(1))
    }
}

/// The decimal text of a natural number, without leading zeros.
pub open spec fn nat_text(n: nat) -> Seq<char>
    decreases n,
{
    if n < 10 {
        seq![digit_char(n as int)]
    } else {
        nat_text(n / 10).push(digit_char((n % 10) as int))
    }
}

fn digit_str(d: u64) -> (s: &'static str)
    requires
        d < 10,
    ensures
        s@ == seq![digit_char(d as int)],
{
    proof {
        reveal_strlit("0");
        reveal_strlit("1");
        reveal_strlit("2");
        reveal_strlit("3");
        reveal_strlit("4");
        reveal_strlit("5");
        reveal_strlit("6");
        reveal_strlit("7");
        reveal_strlit("8");
        reveal_strlit("9");
    }
    let s: &'static str = if d == 0 {
        "0"
    } else if d == 1 {
        "1"
    } else if d == 2 {
        "2"
    } else if d == 3 {
        "3"
    } else if d == 4 {
        "4"
    } else if d == 5 {
        "5"
    } else if d == 6 {
        "6"
    } else if d == 7 {
        "7"
    } else if d == 8 {
        "8"
    } else {
        "9"
    };
    s
}

/// Appends the decimal text of `n` to `out`.
pub fn push_nat(out: &mut String, n: u64)
    ensures
        final(out)@ == old(out)@ + nat_text(n as nat),
    decreases n,
{
    if n >= 10 {
        push_nat(out, n / 10);
    }
    out.append(digit_str(n % 10));
}

/// The text of the fractional part `f` of a value, for `0 <= f < 1000`:
/// empty for zero, else a point and up to three digits, with no trailing
/// zero.
pub open spec fn fraction_text(f: int) -> Seq<char> {
    if f == 0 {
        Seq::empty()
    } else if f % 100 == 0 {
        seq!['.', digit_char(f / 100)]
    } else if f % 10 == 0 {
        seq!['.', digit_char(f / 100), digit_char(f / 10 % 10)]
    } else {
        seq!['.', digit_char(f / 100), digit_char(f / 10 % 10), digit_char(f % 10)]
    }
}

/// The text of a non-negative count of thousandths.
pub open spec fn magnitude_text(m: nat) -> Seq<char> {
    nat_text(m / 1000) + fraction_text((m % 1000) as int)
}

/// The shortest decimal text of `v` thousandths: `50000` reads `50`,
/// `12500` reads `12.5`, `-250` reads `-0.25`.
pub open spec fn decimal_text(v: int) -> Seq<char> {
    if v < 0 {
        seq!['-'] + magnitude_text((-v) as nat)
    } else {
        magnitude_text(v as nat)
    }
}

/// Writes `v` thousandths as decimal text.
pub fn format_thousandths(v: i32) -> (text: String)
    ensures
        text@ == decimal_text(v as int),
{
    let mut out: String = String::new();
    let magnitude: u64 = if v < 0 {
        proof {
            reveal_strlit("-");
        }
        out.append("-");
        (-(v as i64)) as u64
    } else {
        v as u64
    };
    push_nat(&mut out, magnitude / 1000);
    let fraction: u64 = magnitude % 1000;
    if fraction != 0 {
        proof {
            reveal_strlit(".");
        }
        out.append(".");
        out.append(digit_str(fraction / 100));
        if fraction % 100 != 0 {
            out.append(digit_str(fraction / 10 % 10));
            if fraction % 10 != 0 {
                out.append(digit_str(fraction % 10));
            }
        }
    }
    out
}

/// The thousandths that up to three digits after the point stand for.
pub open spec fn scaled_fraction(fraction: Seq<char>) -> int {
    if fraction.len() == 0 {
        0
    } else if fraction.len() == 1 {
        digits_value(fraction) * 100
    } else if fraction.len() == 2 {
        digits_value(fraction) * 10
    } else {
        digits_value(fraction)
    }
}

/// The thousandths that unsigned decimal text stands for: a run of digits,
/// then optionally a point and up to three more digits, with at least one
/// digit in all.
pub open spec fn magnitude_value(body: Seq<char>) -> Option<int> {
    let p = leading_digits(body) as int;
    let whole = body.take(p);
    if p == body.len() {
        if p > 0 {
            Some(digits_value(whole) * 1000)
        } else {
            None
        }
    } else if body[p] == '.' {
        let fraction = body.skip(p + 1);
        if all_digits(fraction) && fraction.len() <= 3 && p + fraction.len() > 0 {
            Some(digits_value(whole) * 1000 + scaled_fraction(fraction))
        } else {
            None
        }
    } else {
        None
    }
}

/// The thousandths that decimal text stands for: an optional sign, then an
/// unsigned decimal. None for any other text.
pub open spec fn decimal_value(s: Seq<char>) -> Option<int> {
    if s.len() > 0 && s[0] == '-' {
        match magnitude_value(s.skip(1)) {
            Some(m) => Some(-m),
            None => None,
        }
    } else if s.len() > 0 && s[0] == '+' {
        magnitude_value(s.skip(1))
    } else {
        magnitude_value(s)
    }
}

/// What `parse_thousandths` makes of a text: its value where it is a decimal
/// that fits an `i32` count of thousandths.
pub open spec fn parsed(s: Seq<char>) -> Option<i32> {
    match decimal_value(s) {
        Some(v) => if i32::MIN <= v <= i32::MAX {
            Some(v as i32)
        } else {
            None
        },
        None => None,
    }
}

/// A run of digits that ends at the end of the text or before a character
/// that is no digit is the whole leading run.
pub proof fn lemma_leading_digits(s: Seq<char>, k: int)
    requires
        0 <= k <= s.len(),
        all_digits(s.take(k)),
        k == s.len() || !is_digit(s[k]),
    ensures
        leading_digits(s) == k,
    decreases k,
{
    if k > 0 {
        assert(is_digit(s.take(k)[0]));
        let rest = s.skip(1);
        assert forall|i: int| 0 <= i < k - 1 implies is_digit(#[trigger] rest.take(k - 1)[i]) by {
            assert(is_digit(s.take(k)[i + 1]));
        }
        lemma_leading_digits(rest, k - 1);
    }
}

/// Up to three digits denote a number below one thousand.
pub proof fn lemma_short_digits(s: Seq<char>)
    requires
        all_digits(s),
        s.len() <= 3,
    ensures
        s.len() == 0 ==> digits_value(s) == 0,
        s.len() == 1 ==> 0 <= digits_value(s) <= 9,
        s.len() == 2 ==> 0 <= digits_value(s) <= 99,
        s.len() == 3 ==> 0 <= digits_value(s) <= 999,
    decreases s.len(),
{
    if s.len() > 0 {
        lemma_short_digits(s.drop_last());
    }
}

/// Reads the run of digits of `text` that starts at `start`. Returns where
/// the run ends, and its value unless that is above `limit`.
fn read_digits(text: &str, start: usize, len: usize, limit: u64) -> (r: (usize, Option<u64>))
    requires
        start <= len,
        len == text@.len(),
        limit < 1_000_000_000_000_000,
    ensures
        start <= r.0 <= len,
        r.0 == start + leading_digits(text@.skip(start as int)),
        all_digits(text@.subrange(start as int, r.0 as int)),
        r.0 == len || !is_digit(text@[r.0 as int]),
        0 <= digits_value(text@.subrange(start as int, r.0 as int)),
        r.1 == (if digits_value(text@.subrange(start as int, r.0 as int)) <= limit {
            Some(digits_value(text@.subrange(start as int, r.0 as int)) as u64)
        } else {
            None
        }),
{
    let mut i: usize = start;
    let mut value: u64 = 0;
    let mut over: bool = false;
    while i < len
        invariant
            start <= i <= len,
            len == text@.len(),
            limit < 1_000_000_000_000_000,
            all_digits(text@.subrange(start as int, i as int)),
            0 <= digits_value(text@.subrange(start as int, i as int)),
            !over ==> value == digits_value(text@.subrange(start as int, i as int)) && value
                <= limit,
            over ==> digits_value(text@.subrange(start as int, i as int)) > limit,
        ensures
            start <= i <= len,
            all_digits(text@.subrange(start as int, i as int)),
            0 <= digits_value(text@.subrange(start as int, i as int)),
            i == len || !is_digit(text@[i as int]),
            !over ==> value == digits_value(text@.subrange(start as int, i as int)) && value
                <= limit,
            over ==> digits_value(text@.subrange(start as int, i as int)) > limit,
        decreases len - i,
    {
        let c: char = text.get_char(i);
        if !(c >= '0' && c <= '9') {
            break;
        }
        proof {
            assert(text@.subrange(start as int, i + 1).drop_last() =~= text@.subrange(
                start as int,
                i as int,
            ));
        }
        if !over {
            let d: u64 = (c as u32 - '0' as u32) as u64;
            value = value * 10 + d;
            if value > limit {
                over = true;
            }
        }
        i += 1;
    }
    proof {
        lemma_leading_digits(text@.skip(start as int), i - start);
    }
    if over {
        (i, None)
    } else {
        (i, Some(value))
    }
}

/// Reads decimal text as a count of thousandths. The text is an optional
/// sign, digits, and optionally a point with up to three digits after it;
/// any other text, and a value outside `i32`, gives none.
pub fn parse_thousandths(text: &str) -> (r: Option<i32>)
    ensures
        r == parsed(text@),
{
    let len: usize = text.unicode_len();
    let mut start: usize = 0;
    let mut negative: bool = false;
    if len > 0 {
        let c: char = text.get_char(0);
        if c == '-' {
            negative = true;
            start = 1;
        } else if c == '+' {
            start = 1;
        }
    }
    let ghost body = text@.skip(start as int);
    let (dot, whole) = read_digits(text, start, len, 2_147_483);
    let ghost p = dot - start;
    proof {
        assert(body.take(p) =~= text@.subrange(start as int, dot as int));
        assert(text@.skip(0) =~= text@);
    }
    let mut thousandths: u64 = 0;
    if dot < len {
        if text.get_char(dot) != '.' {
            return None;
        }
        let (end, fraction) = read_digits(text, dot + 1, len, 999);
        let ghost tail = body.skip(p + 1);
        proof {
            assert(tail =~= text@.skip(dot + 1));
            if end < len {
                assert(tail[end - dot - 1] == text@[end as int]);
            }
        }
        if end < len || len - dot > 4 || len - start < 2 {
            return None;
        }
        proof {
            lemma_short_digits(tail);
        }
        let digits: u64 = fraction.unwrap();
        thousandths = if len - dot == 2 {
            digits * 100
        } else if len - dot == 3 {
            digits * 10
        } else {
            digits
        };
    } else if dot == start {
        return None;
    }
    match whole {
        None => None,
        Some(units) => {
            let magnitude: u64 = units * 1000 + thousandths;
            if negative {
                if magnitude <= 2_147_483_648 {
                    Some((-(magnitude as i64)) as i32)
                } else {
                    None
                }
            } else if magnitude <= 2_147_483_647 {
                Some(magnitude as i32)
            } else {
                None
            }
        },
    }
}

/// The text of a natural number is made of digits, at least one, and
/// denotes that number.
pub proof fn lemma_nat_text(n: nat)
    ensures
        nat_text(n).len() >= 1,
        all_digits(nat_text(n)),
        digits_value(nat_text(n)) == n,
    decreases n,
{
    if n < 10 {
        let s = nat_text(n);
        assert(digits_value(s) == digits_value(s.drop_last()) * 10 + digit_value(s.last()));
    } else {
        lemma_nat_text(n / 10);
        let s = nat_text(n);
        assert(s.drop_last() =~= nat_text(n / 10));
    }
}

/// The text of a fraction that is not zero is a point and one to three
/// digits that denote the fraction.
pub proof fn lemma_fraction_text(f: int)
    requires
        0 < f < 1000,
    ensures
        fraction_text(f).len() >= 2,
        fraction_text(f)[0] == '.',
        fraction_text(f).skip(1).len() <= 3,
        all_digits(fraction_text(f).skip(1)),
        scaled_fraction(fraction_text(f).skip(1)) == f,
{
    reveal_with_fuel(digits_value, 4);
}

/// Reading the text of a count of thousandths gives the count back.
pub proof fn lemma_magnitude_round_trip(m: nat)
    ensures
        magnitude_text(m).len() >= 1,
        is_digit(magnitude_text(m)[0]),
        magnitude_value(magnitude_text(m)) == Some(m as int),
{
    let whole = nat_text(m / 1000);
    let f = (m % 1000) as int;
    let body = magnitude_text(m);
    lemma_nat_text(m / 1000);
    assert(body.take(whole.len() as int) =~= whole);
    if f == 0 {
        lemma_leading_digits(body, whole.len() as int);
    } else {
        lemma_fraction_text(f);
        lemma_leading_digits(body, whole.len() as int);
        assert(body.skip(whole.len() as int + 1) =~= fraction_text(f).skip(1));
    }
}

/// Reading what was written gives the value back: the text of any value is
/// a decimal that stands for that value. So every value that
/// `format_thousandths` writes, `parse_thousandths` reads as the same value.
pub proof fn lemma_round_trip(v: int)
    ensures
        decimal_value(decimal_text(v)) == Some(v),
        i32::MIN <= v <= i32::MAX ==> parsed(decimal_text(v)) == Some(v as i32),
{
    if v < 0 {
        lemma_magnitude_round_trip((-v) as nat);
        assert(decimal_text(v).skip(1) =~= magnitude_text((-v) as nat));
    } else {
        lemma_magnitude_round_trip(v as nat);
    }
}

/// `c` may stand in the text of a value: a digit, the minus sign or the
/// point.
pub open spec fn in_alphabet(c: char) -> bool {
    is_digit(c) || c == '-' || c == '.'
}

/// The text of a value holds digits, the minus sign and the point only, so
/// every character of it is one byte of ASCII.
pub proof fn lemma_decimal_alphabet(v: int)
    ensures
        decimal_text(v).len() >= 1,
        forall|i: int|
            0 <= i < decimal_text(v).len() ==> in_alphabet(#[trigger] decimal_text(v)[i]),
        forall|i: int| 0 <= i < decimal_text(v).len() ==> (#[trigger] decimal_text(v)[i]) as int
            <= 127,
{
    let m: nat = if v < 0 {
        (-v) as nat
    } else {
        v as nat
    };
    let whole = nat_text(m / 1000);
    let f = (m % 1000) as int;
    lemma_nat_text(m / 1000);
    if f != 0 {
        lemma_fraction_text(f);
    }
    assert forall|i: int| 0 <= i < magnitude_text(m).len() implies in_alphabet(
        #[trigger] magnitude_text(m)[i],
    ) by {
        if i < whole.len() {
            assert(is_digit(whole[i]));
        } else if i > whole.len() {
            assert(is_digit(fraction_text(f).skip(1)[i - whole.len() - 1]));
        }
    }
    assert forall|i: int| 0 <= i < decimal_text(v).len() implies in_alphabet(
        #[trigger] decimal_text(v)[i],
    ) by {
        if v < 0 && i > 0 {
            assert(in_alphabet(magnitude_text(m)[i - 1]));
        }
    }
}

/// The number that unsigned decimal text stands for: an optional plus sign
/// and at least one digit, nothing else.
pub open spec fn unsigned_value(s: Seq<char>) -> Option<int> {
    let body = if s.len() > 0 && s[0] == '+' {
        s.skip(1)
    } else {
        s
    };
    if body.len() > 0 && all_digits(body) {
        Some(digits_value(body))
    } else {
        None
    }
}

/// What `parse_u16` makes of a text: its value where it is an unsigned
/// decimal of at most 65535.
pub open spec fn parsed_u16(s: Seq<char>) -> Option<u16> {
    match unsigned_value(s) {
        Some(v) => if v <= u16::MAX {
            Some(v as u16)
        } else {
            None
        },
        None => None,
    }
}

/// Reads unsigned decimal text as a `u16`.
pub fn parse_u16(text: &str) -> (r: Option<u16>)
    ensures
        r == parsed_u16(text@),
{
    let len: usize = text.unicode_len();
    let start: usize = if len > 0 && text.get_char(0) == '+' {
        1
    } else {
        0
    };
    let (end, value) = read_digits(text, start, len, 65_535);
    proof {
        let body = text@.skip(start as int);
        assert(text@.skip(0) =~= text@);
        if end < len {
            assert(body[end - start] == text@[end as int]);
        }
    }
    if end < len || end == start {
        return None;
    }
    match value {
        None => None,
        Some(v) => Some(v as u16),
    }
}

} // verus!
