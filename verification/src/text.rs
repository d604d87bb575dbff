//! Decimal digits in text: what a run of digit characters denotes, and how a
//! number is written with a fixed count of digits.

use vstd::arithmetic::div_mod::lemma_div_denominator;
use vstd::prelude::*;
use vstd::utf8::is_ascii_chars;

verus! {

/// The code of the digit `0`.
pub(crate) const DIGIT_ZERO: u8 = 48;

/// The code of the digit `1`.
pub(crate) const DIGIT_ONE: u8 = 49;

/// The code of the digit `9`.
pub(crate) const DIGIT_NINE: u8 = 57;

/// The code of `-`.
pub(crate) const HYPHEN: u8 = 45;

/// The code of `:`.
pub(crate) const COLON: u8 = 58;

/// The code of `+`.
pub(crate) const PLUS: u8 = 43;

/// The code of the letter `T`.
pub(crate) const LETTER_T: u8 = 84;

/// Whether `c` is one of the ten ASCII digits.
pub open spec fn is_digit(c: char) -> bool {
    '0' <= c <= '9'
}

/// The number that the digit `c` denotes.
pub open spec fn digit_value(c: char) -> int {
    c as int - 48
}

/// The digit that denotes `d`, for `d` from 0 to 9.
pub open spec fn digit_char(d: int) -> char {
    (d + 48) as char
}

/// The number written by the two digits of `s` that start at `at`.
pub open spec fn two_digits(s: Seq<char>, at: int) -> int {
    10 * digit_value(s[at]) + digit_value(s[at + 1])
}

/// The number written by the four digits of `s` that start at `at`.
pub open spec fn four_digits(s: Seq<char>, at: int) -> int {
    1000 * digit_value(s[at]) + 100 * digit_value(s[at + 1]) + 10 * digit_value(s[at + 2])
        + digit_value(s[at + 3])
}

/// Whether `s` holds two digits at `at`.
pub open spec fn has_two_digits(s: Seq<char>, at: int) -> bool {
    &&& 0 <= at
    &&& at + 2 <= s.len()
    &&& is_digit(s[at])
    &&& is_digit(s[at + 1])
}

/// Whether `s` holds four digits at `at`.
pub open spec fn has_four_digits(s: Seq<char>, at: int) -> bool {
    &&& 0 <= at
    &&& at + 4 <= s.len()
    &&& is_digit(s[at])
    &&& is_digit(s[at + 1])
    &&& is_digit(s[at + 2])
    &&& is_digit(s[at + 3])
}

/// `n` written with two digits, for `n` from 0 to 99.
pub open spec fn two_digit_text(n: int) -> Seq<char> {
    seq![digit_char(n / 10), digit_char(n % 10)]
}

/// `n` written with four digits, for `n` from 0 to 9999.
pub open spec fn four_digit_text(n: int) -> Seq<char> {
    seq![
        digit_char(n / 1000),
        digit_char(n / 100 % 10),
        digit_char(n / 10 % 10),
        digit_char(n % 10),
    ]
}

/// The number of characters of `text`, if all of them are ASCII.
pub(crate) fn ascii_len(text: &str) -> (r: Option<usize>)
    ensures
        r is Some <==> is_ascii_chars(text@),
        r matches Some(n) ==> n == text@.len(),
{
    if text.is_ascii() {
        proof {
            vstd::string::is_ascii_spec_bytes(text);
        }
        Some(text.as_bytes().len())
    } else {
        None
    }
}

/// The code of the character at `at`.
pub(crate) fn ascii_at(text: &str, at: usize) -> (r: u8)
    requires
        is_ascii_chars(text@),
        at < text@.len(),
    ensures
        r as int == text@[at as int] as int,
{
    text.get_ascii(at)
}

/// The value of the digit at `at`, if there is a digit.
pub(crate) fn digit_at(text: &str, at: usize) -> (r: Option<u8>)
    requires
        is_ascii_chars(text@),
        at < text@.len(),
    ensures
        r is Some <==> is_digit(text@[at as int]),
        r matches Some(d) ==> d == digit_value(text@[at as int]) && d <= 9,
{
    let b: u8 = ascii_at(text, at);
    if DIGIT_ZERO <= b && b <= DIGIT_NINE {
        Some(b - DIGIT_ZERO)
    } else {
        None
    }
}

/// The number written by the two digits at `at`, if there are two digits.
pub(crate) fn two_digits_at(text: &str, at: usize) -> (r: Option<u8>)
    requires
        is_ascii_chars(text@),
        at + 2 <= text@.len() <= usize::MAX,
    ensures
        r is Some <==> has_two_digits(text@, at as int),
        r matches Some(n) ==> n == two_digits(text@, at as int) && n <= 99,
{
    match digit_at(text, at) {
        Some(tens) => match digit_at(text, at + 1) {
            Some(ones) => Some(10 * tens + ones),
            None => None,
        },
        None => None,
    }
}

/// The number written by the four digits at `at`, if there are four digits.
pub(crate) fn four_digits_at(text: &str, at: usize) -> (r: Option<u16>)
    requires
        is_ascii_chars(text@),
        at + 4 <= text@.len() <= usize::MAX,
    ensures
        r is Some <==> has_four_digits(text@, at as int),
        r matches Some(n) ==> n == four_digits(text@, at as int) && n <= 9999,
{
    match two_digits_at(text, at) {
        Some(high) => match two_digits_at(text, at + 2) {
            Some(low) => Some(100 * (high as u16) + low as u16),
            None => None,
        },
        None => None,
    }
}

/// The text of one digit.
pub(crate) fn digit_text(d: u8) -> (r: &'static str)
    requires
        d <= 9,
    ensures
        r@ == seq![digit_char(d as int)],
{
    proof {
        reveal_strlit("0");
        reveal_strlit("1");
        reveal_strlit("2");
        reveal_strlit("3");
        reveal_strlit("4");
        reveal_strlit("5");
        reveal_strlit("6");
        reveal_strlit("7");
        reveal_strlit("8");
        reveal_strlit("9");
    }
    let r: &'static str = if d == 0 {
        "0"
    } else if d == 1 {
        "1"
    } else if d == 2 {
        "2"
    } else if d == 3 {
        "3"
    } else if d == 4 {
        "4"
    } else if d == 5 {
        "5"
    } else if d == 6 {
        "6"
    } else if d == 7 {
        "7"
    } else if d == 8 {
        "8"
    } else {
        "9"
    };
    assert(r@ =~= seq![digit_char(d as int)]);
    r
}

/// Writes `n` with two digits at the end of `out`.
pub(crate) fn push_two_digits(out: &mut String, n: u8)
    requires
        n <= 99,
    ensures
        final(out)@ == old(out)@ + two_digit_text(n as int),
{
    out.append(digit_text(n / 10));
    out.append(digit_text(n % 10));
    assert(out@ =~= old(out)@ + two_digit_text(n as int));
}

/// Writes `n` with four digits at the end of `out`.
pub(crate) fn push_four_digits(out: &mut String, n: u16)
    requires
        n <= 9999,
    ensures
        final(out)@ == old(out)@ + four_digit_text(n as int),
{
    out.append(digit_text((n / 1000) as u8));
    out.append(digit_text((n / 100 % 10) as u8));
    out.append(digit_text((n / 10 % 10) as u8));
    out.append(digit_text((n % 10) as u8));
    assert(out@ =~= old(out)@ + four_digit_text(n as int));
}

/// Two digits are read back as the number that they were written for.
pub proof fn lemma_two_digit_text_reads(n: int)
    requires
        0 <= n <= 99,
    ensures
        two_digit_text(n).len() == 2,
        has_two_digits(two_digit_text(n), 0),
        two_digits(two_digit_text(n), 0) == n,
{
}

/// Four digits are read back as the number that they were written for.
#[verifier::rlimit(40)]
pub proof fn lemma_four_digit_text_reads(n: int)
    requires
        0 <= n <= 9999,
    ensures
        four_digit_text(n).len() == 4,
        has_four_digits(four_digit_text(n), 0),
        four_digits(four_digit_text(n), 0) == n,
{
    let tens = n / 10;
    let hundreds = n / 100;
    let thousands = n / 1000;
    assert(tens / 10 == hundreds) by {
        lemma_div_denominator(n, 10, 10);
    }
    assert(hundreds / 10 == thousands) by {
        lemma_div_denominator(n, 100, 10);
    }
    assert(n == 10 * tens + n % 10);
    assert(tens == 10 * hundreds + tens % 10);
    assert(hundreds == 10 * thousands + hundreds % 10);
    assert(0 <= thousands <= 9);
}

/// Two digits are written back as they were read.
pub proof fn lemma_two_digits_are_written(s: Seq<char>, at: int)
    requires
        has_two_digits(s, at),
    ensures
        0 <= two_digits(s, at) <= 99,
        two_digit_text(two_digits(s, at)) == s.subrange(at, at + 2),
{
    assert(two_digit_text(two_digits(s, at)) =~= s.subrange(at, at + 2));
}

/// Four digits are written back as they were read.
#[verifier::rlimit(40)]
pub proof fn lemma_four_digits_are_written(s: Seq<char>, at: int)
    requires
        has_four_digits(s, at),
    ensures
        0 <= four_digits(s, at) <= 9999,
        four_digit_text(four_digits(s, at)) == s.subrange(at, at + 4),
{
    let a = digit_value(s[at]);
    let b = digit_value(s[at + 1]);
    let c = digit_value(s[at + 2]);
    let n = four_digits(s, at);
    assert(n / 1000 == a);
    assert(n / 100 == 10 * a + b);
    assert(n / 10 == 100 * a + 10 * b + c);
    assert(four_digit_text(n) =~= s.subrange(at, at + 4));
}

} // verus!
