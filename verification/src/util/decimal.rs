//! Fixed-point quantities and their decimal text.
//!
//! A measured quantity is held as a signed count of a decimal fraction of its unit,
//! mostly of hundredths, so that `1013.25 hPa` is the integer `101325`. This module says
//! how a count of hundredths is written with exactly two fraction digits, how a count
//! is divided with rounding to the nearest integer, ties going to the even neighbour,
//! and how a decimal numeral in a device's reply is read as such a count.

use crate::util::scan::{find_byte, first_index};
use vstd::prelude::*;
use vstd::slice::slice_subrange;
use vstd::string::*;

verus! {

/// The character that writes the decimal digit `d`.
pub open spec fn digit_char(d: nat) -> char
    recommends
        d < 10,
{
    if d == 0 {
        '0'
    } else if d == 1 {
        '1'
    } else if d == 2 {
        '2'
    } else if d == 3 {
        '3'
    } else if d == 4 {
        '4'
    } else if d == 5 {
        '5'
    } else if d == 6 {
        '6'
    } else if d == 7 {
        '7'
    } else if d == 8 {
        '8'
    } else {
        '9'
    }
}

/// Whether `c` is one of the ten decimal digits.
pub open spec fn is_digit(c: char) -> bool {
    '0' <= c <= '9'
}

/// The number that the decimal digit `c` stands for.
pub open spec fn digit_value(c: char) -> nat
    recommends
        is_digit(c),
{
    (c as u32 - '0' as u32) as nat
}

/// The decimal numeral of `n`, most significant digit first, without leading zeros.
pub open spec fn decimal_digits(n: nat) -> Seq<char>
    decreases n,
{
    if n < 10 {
        seq![digit_char(n)]
    } else {
        decimal_digits(n / 10).push(digit_char(n % 10))
    }
}

/// The number that a run of decimal digits writes; the empty run writes zero.
pub open spec fn decimal_value(digits: Seq<char>) -> nat
    decreases digits.len(),
{
    if digits.len() == 0 {
        0
    } else {
        decimal_value(digits.drop_last()) * 10 + digit_value(digits.last())
    }
}

/// The distance of `v` from zero.
pub open spec fn magnitude(v: int) -> nat {
    if v < 0 {
        (-v) as nat
    } else {
        v as nat
    }
}

/// The quotient `n / d` rounded to the nearest integer; a quotient exactly half way
/// between two integers goes to the even one.
pub open spec fn round_half_even(n: nat, d: nat) -> nat
    recommends
        d > 0,
{
    let q = n / d;
    let r = n % d;
    if 2 * r < d || (2 * r == d && q % 2 == 0) {
        q
    } else {
        q + 1
    }
}

/// A count of hundredths written with two fraction digits: an optional minus sign, the
/// integer part without leading zeros, a point, and the two digits of the fraction.
pub open spec fn two_places(negative: bool, hundredths: nat) -> Seq<char> {
    (if negative {
        seq!['-']
    } else {
        Seq::<char>::empty()
    }) + decimal_digits(hundredths / 100) + seq![
        '.',
        digit_char(hundredths / 10 % 10),
        digit_char(hundredths % 10),
    ]
}

/// The text of a quantity held as `v` hundredths.
pub open spec fn fixed_text(v: int) -> Seq<char> {
    two_places(v < 0, magnitude(v))
}

/// The text of one hundredth of a quantity held as `v` hundredths, rounded to two
/// fraction digits. The sign is that of `v`, also where the rounded value is zero.
pub open spec fn scaled_text(v: int) -> Seq<char> {
    two_places(v < 0, round_half_even(magnitude(v), 100))
}

/// A quantity multiplied by `num / den` and rounded to the nearest integer, ties to the
/// even neighbour; the result has the sign of `value`.
pub open spec fn rescaled(value: int, num: nat, den: nat) -> int
    recommends
        den > 0,
{
    let m = round_half_even(magnitude(value) * num, den);
    if value < 0 {
        -(m as int)
    } else {
        m as int
    }
}

/// Whether `c` can occur in the text of a quantity: a digit, the minus sign or the point.
pub open spec fn is_numeral_char(c: char) -> bool {
    is_digit(c) || c == '-' || c == '.'
}

/// A decimal numeral is never empty and holds digits only.
pub proof fn lemma_decimal_digits_are_digits(n: nat)
    ensures
        decimal_digits(n).len() >= 1,
        forall|i: int| 0 <= i < decimal_digits(n).len() ==> is_digit(#[trigger] decimal_digits(n)[i]),
    decreases n,
{
    if n >= 10 {
        lemma_decimal_digits_are_digits(n / 10);
    }
}

/// Reading a decimal numeral gives back the number it was written from.
pub proof fn lemma_decimal_value_of_digits(n: nat)
    ensures
        decimal_value(decimal_digits(n)) == n,
    decreases n,
{
    if n < 10 {
        let one = decimal_digits(n);
        assert(one.drop_last() =~= Seq::<char>::empty());
        assert(decimal_value(one.drop_last()) == 0);
    } else {
        lemma_decimal_value_of_digits(n / 10);
        let all = decimal_digits(n);
        assert(all.drop_last() =~= decimal_digits(n / 10));
    }
}

/// The text of a quantity is at least four characters long and holds nothing but
/// digits, the minus sign and the point.
pub proof fn lemma_two_places_chars(negative: bool, hundredths: nat)
    ensures
        two_places(negative, hundredths).len() >= 4,
        forall|i: int|
            0 <= i < two_places(negative, hundredths).len() ==> is_numeral_char(
                #[trigger] two_places(negative, hundredths)[i],
            ),
{
    lemma_decimal_digits_are_digits(hundredths / 100);
}

/// The rounded quotient is an integer nearest to `n / d`: it differs from the exact
/// quotient by at most one half, and where it differs by exactly one half, it is even.
pub proof fn lemma_round_half_even_is_nearest(n: nat, d: nat)
    requires
        d > 0,
    ensures
        2 * (round_half_even(n, d) * d - n) <= d,
        2 * (n - round_half_even(n, d) * d) <= d,
        2 * (round_half_even(n, d) * d - n) == d || 2 * (n - round_half_even(n, d) * d) == d
            ==> round_half_even(n, d) % 2 == 0,
{
    let q = n / d;
    let r = n % d;
    assert(n == q * d + r && 0 <= r < d) by {
        vstd::arithmetic::div_mod::lemma_fundamental_div_mod(n as int, d as int);
        vstd::arithmetic::div_mod::lemma_mod_bound(n as int, d as int);
        assert(d * q == q * d) by (nonlinear_arith);
    }
    assert((q + 1) * d == q * d + d) by (nonlinear_arith);
}

/// The text of the decimal digit `d`.
fn digit_text(d: u64) -> (text: &'static str)
    requires
        d < 10,
    ensures
        text@ == seq![digit_char(d as nat)],
{
    proof {
        reveal_strlit("0");
        reveal_strlit("1");
        reveal_strlit("2");
        reveal_strlit("3");
        reveal_strlit("4");
        reveal_strlit("5");
        reveal_strlit("6");
        reveal_strlit("7");
        reveal_strlit("8");
        reveal_strlit("9");
    }
    let text = if d == 0 {
        "0"
    } else if d == 1 {
        "1"
    } else if d == 2 {
        "2"
    } else if d == 3 {
        "3"
    } else if d == 4 {
        "4"
    } else if d == 5 {
        "5"
    } else if d == 6 {
        "6"
    } else if d == 7 {
        "7"
    } else if d == 8 {
        "8"
    } else {
        "9"
    };
    assert(text@ =~= seq![digit_char(d as nat)]);
    text
}

/// The distance of `v` from zero, which always fits in 64 bits without a sign.
pub fn unsigned_magnitude(v: i64) -> (m: u64)
    ensures
        m == magnitude(v as int),
{
    if v >= 0 {
        v as u64
    } else {
        let below: i64 = -(v + 1);
        below as u64 + 1
    }
}

/// Divides `n` by `d` and rounds to the nearest integer, ties to even.
pub fn div_round_half_even(n: u64, d: u64) -> (q: u64)
    requires
        d > 0,
    ensures
        q == round_half_even(n as nat, d as nat),
{
    let q: u64 = n / d;
    let r: u64 = n % d;
    let rest: u64 = d - r;
    proof {
        assert(q <= n) by {
            vstd::arithmetic::div_mod::lemma_div_is_ordered_by_denominator(n as int, 1, d as int);
        }
        assert(r > rest ==> q < u64::MAX) by {
            if r > rest {
                vstd::arithmetic::div_mod::lemma_fundamental_div_mod(n as int, d as int);
                assert(r > 0);
                assert(d * q >= q) by (nonlinear_arith)
                    requires
                        d >= 1,
                        q >= 0,
                ;
            }
        }
    }
    if r < rest || (r == rest && q % 2 == 0) {
        q
    } else {
        proof {
            if r == rest {
                vstd::arithmetic::div_mod::lemma_fundamental_div_mod(n as int, d as int);
                assert(d * q >= 2 * q) by (nonlinear_arith)
                    requires
                        d >= 2,
                        q >= 0,
                ;
            }
        }
        q + 1
    }
}

/// Rounding a quotient never gives more than the dividend.
pub proof fn lemma_round_half_even_bound(n: nat, d: nat)
    requires
        d > 0,
    ensures
        round_half_even(n, d) <= n,
{
    let q = n / d;
    let r = n % d;
    vstd::arithmetic::div_mod::lemma_fundamental_div_mod(n as int, d as int);
    assert(d * q >= q) by (nonlinear_arith)
        requires
            d >= 1,
            q >= 0,
    ;
}

/// Multiplies a quantity by `num / den`, rounding to the nearest integer, ties to even.
pub fn rescale(value: i64, num: u64, den: u64) -> (r: i64)
    requires
        den > 0,
        magnitude(value as int) * num <= i64::MAX,
    ensures
        r == rescaled(value as int, num as nat, den as nat),
{
    let m = unsigned_magnitude(value);
    proof {
        lemma_round_half_even_bound(m as nat * num as nat, den as nat);
    }
    let scaled = div_round_half_even(m * num, den);
    if value < 0 {
        -(scaled as i64)
    } else {
        scaled as i64
    }
}

/// Appends the decimal numeral of `n` to `out`.
pub fn push_decimal(out: &mut String, n: u64)
    ensures
        final(out)@ == old(out)@ + decimal_digits(n as nat),
    decreases n,
{
    if n >= 10 {
        push_decimal(out, n / 10);
    }
    out.append(digit_text(n % 10));
    assert(out@ =~= old(out)@ + decimal_digits(n as nat));
}

/// Appends a count of hundredths, written with two fraction digits, to `out`.
pub fn push_two_places(out: &mut String, negative: bool, hundredths: u64)
    ensures
        final(out)@ == old(out)@ + two_places(negative, hundredths as nat),
{
    proof {
        reveal_strlit("-");
        reveal_strlit(".");
    }
    if negative {
        out.append("-");
    }
    push_decimal(out, hundredths / 100);
    out.append(".");
    out.append(digit_text(hundredths / 10 % 10));
    out.append(digit_text(hundredths % 10));
    assert(out@ =~= old(out)@ + two_places(negative, hundredths as nat));
}

/// Appends the text of a quantity held as `v` hundredths to `out`.
pub fn push_fixed(out: &mut String, v: i64)
    ensures
        final(out)@ == old(out)@ + fixed_text(v as int),
{
    push_two_places(out, v < 0, unsigned_magnitude(v));
}

/// Appends the text of one hundredth of a quantity held as `v` hundredths to `out`,
/// rounded to two fraction digits.
pub fn push_scaled(out: &mut String, v: i64)
    ensures
        final(out)@ == old(out)@ + scaled_text(v as int),
{
    push_two_places(out, v < 0, div_round_half_even(unsigned_magnitude(v), 100));
}

/// The code of the minus sign.
pub const MINUS: u8 = 0x2D;

/// The code of the decimal point.
pub const POINT: u8 = 0x2E;

/// The most digits that a numeral may have before the point.
pub const MAX_WHOLE_DIGITS: usize = 9;

/// The most fraction digits that a numeral can be read to.
pub const MAX_PLACES: usize = 9;

/// Whether `b` is the code of a decimal digit.
pub open spec fn is_digit_byte(b: u8) -> bool {
    0x30 <= b <= 0x39
}

/// Whether `text` holds codes of decimal digits only.
pub open spec fn all_digit_bytes(text: Seq<u8>) -> bool {
    forall|i: int| 0 <= i < text.len() ==> is_digit_byte(#[trigger] text[i])
}

/// The number that a run of digit codes writes; the empty run writes zero.
pub open spec fn digits_value(text: Seq<u8>) -> nat
    decreases text.len(),
{
    if text.len() == 0 {
        0
    } else {
        digits_value(text.drop_last()) * 10 + (text.last() - 0x30) as nat
    }
}

/// Ten to the power of `n`.
pub open spec fn pow10(n: nat) -> nat
    decreases n,
{
    if n == 0 {
        1
    } else {
        10 * pow10((n - 1) as nat)
    }
}

/// What a numeral without sign is worth in units of `10^-places`: digits, of which
/// there are one to nine, and optionally a point and one to `places` more digits.
/// Anything else is worth nothing.
pub open spec fn unsigned_numeral_value(text: Seq<u8>, places: nat) -> Option<nat> {
    let point = first_index(text, POINT, 0);
    let whole = text.subrange(0, point);
    let fraction = if point < text.len() {
        text.subrange(point + 1, text.len() as int)
    } else {
        Seq::<u8>::empty()
    };
    if 1 <= whole.len() <= MAX_WHOLE_DIGITS && all_digit_bytes(whole) && all_digit_bytes(fraction)
        && fraction.len() <= places && (point < text.len() ==> fraction.len() >= 1) {
        Some(
            digits_value(whole) * pow10(places) + digits_value(fraction) * pow10(
                (places - fraction.len()) as nat,
            ),
        )
    } else {
        None
    }
}

/// What a numeral is worth in units of `10^-places`: an optional minus sign, then a
/// numeral without sign.
pub open spec fn numeral_value(text: Seq<u8>, places: nat) -> Option<int> {
    if text.len() > 0 && text[0] == MINUS {
        match unsigned_numeral_value(text.skip(1), places) {
            Some(m) => Some(-(m as int)),
            None => None,
        }
    } else {
        match unsigned_numeral_value(text, places) {
            Some(m) => Some(m as int),
            None => None,
        }
    }
}

/// Powers of ten grow with the exponent, and the eighteenth still fits in 64 bits.
pub proof fn lemma_pow10_bounds(n: nat, m: nat)
    requires
        n <= m,
    ensures
        1 <= pow10(n) <= pow10(m),
        pow10(9) == 1_000_000_000,
        pow10(18) == 1_000_000_000_000_000_000,
    decreases m,
{
    reveal_with_fuel(pow10, 19);
    if n < m {
        lemma_pow10_bounds(n, (m - 1) as nat);
    } else if n > 0 {
        lemma_pow10_bounds((n - 1) as nat, (m - 1) as nat);
    }
}

/// Ten to the power of `n`.
pub fn power_of_ten(n: usize) -> (p: u64)
    requires
        n <= 18,
    ensures
        p == pow10(n as nat),
        1 <= p <= 1_000_000_000_000_000_000,
{
    let mut p: u64 = 1;
    let mut i: usize = 0;
    proof {
        lemma_pow10_bounds(0, 18);
    }
    while i < n
        invariant
            i <= n <= 18,
            p == pow10(i as nat),
            pow10(18) == 1_000_000_000_000_000_000,
        decreases n - i,
    {
        proof {
            lemma_pow10_bounds((i + 1) as nat, 18);
        }
        p = p * 10;
        i = i + 1;
    }
    proof {
        lemma_pow10_bounds(n as nat, 18);
    }
    p
}

/// Reads a run of at most `max_len` digits.
pub fn parse_digits(text: &[u8], max_len: usize) -> (value: Option<u64>)
    requires
        max_len <= 18,
    ensures
        value is Some <==> text@.len() <= max_len && all_digit_bytes(text@),
        value is Some ==> value->0 == digits_value(text@) && value->0 < pow10(text@.len()),
{
    let len = text.len();
    if len > max_len {
        return None;
    }
    let mut value: u64 = 0;
    let mut i: usize = 0;
    while i < len
        invariant
            len == text@.len(),
            i <= len <= max_len <= 18,
            all_digit_bytes(text@.subrange(0, i as int)),
            value == digits_value(text@.subrange(0, i as int)),
            value < pow10(i as nat),
        decreases len - i,
    {
        let b = text[i];
        if b < 0x30 || b > 0x39 {
            assert(!is_digit_byte(text@[i as int]));
            return None;
        }
        proof {
            let longer = text@.subrange(0, i + 1);
            assert(longer.drop_last() =~= text@.subrange(0, i as int));
            assert(longer.last() == b);
            assert forall|k: int| 0 <= k < longer.len() implies is_digit_byte(#[trigger] longer[k]) by {
                if k < i {
                    assert(longer[k] == text@.subrange(0, i as int)[k]);
                }
            }
            lemma_pow10_bounds((i + 1) as nat, 18);
        }
        value = value * 10 + (b - 0x30) as u64;
        i = i + 1;
    }
    assert(text@.subrange(0, len as int) =~= text@);
    Some(value)
}

/// Reads a numeral without sign as a count of `10^-places`.
pub fn parse_unsigned_numeral(text: &[u8], places: usize) -> (value: Option<u64>)
    requires
        places <= MAX_PLACES,
    ensures
        value is Some <==> unsigned_numeral_value(text@, places as nat) is Some,
        value is Some ==> value->0 == unsigned_numeral_value(text@, places as nat)->0,
        value is Some ==> value->0 <= 2_000_000_000_000_000_000,
{
    let len = text.len();
    let point = find_byte(text, POINT, 0);
    let whole = slice_subrange(text, 0, point);
    let fraction = if point < len {
        slice_subrange(text, point + 1, len)
    } else {
        slice_subrange(text, 0, 0)
    };
    assert(text@.subrange(0, 0) =~= Seq::<u8>::empty());
    if point == 0 || (point < len && point + 1 == len) {
        return None;
    }
    let whole_value = match parse_digits(whole, MAX_WHOLE_DIGITS) {
        Some(v) => v,
        None => {
            return None;
        },
    };
    let fraction_value = match parse_digits(fraction, places) {
        Some(v) => v,
        None => {
            return None;
        },
    };
    let unit = power_of_ten(places);
    let step = power_of_ten(places - fraction.len());
    proof {
        lemma_pow10_bounds(whole@.len(), 9);
        lemma_pow10_bounds(fraction@.len(), 9);
        lemma_pow10_bounds(places as nat, 9);
        lemma_pow10_bounds((places - fraction@.len()) as nat, 9);
        assert(whole_value * unit <= 1_000_000_000 * 1_000_000_000) by (nonlinear_arith)
            requires
                0 <= whole_value <= 1_000_000_000,
                0 <= unit <= 1_000_000_000,
        ;
        assert(fraction_value * step <= 1_000_000_000 * 1_000_000_000) by (nonlinear_arith)
            requires
                0 <= fraction_value <= 1_000_000_000,
                0 <= step <= 1_000_000_000,
        ;
    }
    Some(whole_value * unit + fraction_value * step)
}

/// Reads a numeral as a count of `10^-places`.
pub fn parse_numeral(text: &[u8], places: usize) -> (value: Option<i64>)
    requires
        places <= MAX_PLACES,
    ensures
        value is Some <==> numeral_value(text@, places as nat) is Some,
        value is Some ==> value->0 == numeral_value(text@, places as nat)->0,
{
    let len = text.len();
    if len > 0 && text[0] == MINUS {
        match parse_unsigned_numeral(slice_subrange(text, 1, len), places) {
            Some(m) => Some(-(m as i64)),
            None => None,
        }
    } else {
        match parse_unsigned_numeral(text, places) {
            Some(m) => Some(m as i64),
            None => None,
        }
    }
}

} // verus!
