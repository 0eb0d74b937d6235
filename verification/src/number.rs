//! Decimal integers: reading one from text, writing one as text, and rounding
//! a quotient to the nearest integer.

use crate::text::push_chars;
use crate::text::to_chars;
use vstd::arithmetic::div_mod::lemma_fundamental_div_mod;
use vstd::arithmetic::div_mod::lemma_mod_bound;
use vstd::math::abs;
use vstd::prelude::*;

verus! {

/// Why a text is not a decimal `i32`.
#[derive(Debug, Clone, Copy, PartialEq, Eq)]
pub enum IntErrorKind {
    /// The text is empty.
    Empty,
    /// The text holds a character that is not a digit, or a sign and nothing else.
    InvalidDigit,
    /// The number is larger than `i32::MAX`.
    PosOverflow,
    /// The number is smaller than `i32::MIN`.
    NegOverflow,
}

/// The message of the error that `kind` stands for.
pub open spec fn kind_message(kind: IntErrorKind) -> Seq<char> {
    match kind {
        IntErrorKind::Empty => "cannot parse integer from empty string"@,
        IntErrorKind::InvalidDigit => "invalid digit found in string"@,
        IntErrorKind::PosOverflow => "number too large to fit in target type"@,
        IntErrorKind::NegOverflow => "number too small to fit in target type"@,
    }
}

/// Whether `c` is one of `0` to `9`.
pub open spec fn is_digit(c: char) -> bool {
    '0' <= c <= '9'
}

/// The number a digit stands for; 0 for any other character.
pub open spec fn digit_value(c: char) -> nat {
    if is_digit(c) {
        (c as int - '0' as int) as nat
    } else {
        0
    }
}

/// The character that stands for the digit `d`.
pub open spec fn digit_char(d: int) -> char
    recommends
        0 <= d <= 9,
{
    ('0' as int + d) as char
}

/// The number that the digits of `s` spell, the first digit weighing most.
pub open spec fn digits_value(s: Seq<char>) -> nat
    decreases s.len(),
{
    if s.len() == 0 {
        0
    } else {
        digits_value(s.drop_last()) * 10 + digit_value(s.last())
    }
}

/// How many digits `s` starts with.
pub open spec fn digit_run(s: Seq<char>) -> nat
    decreases s.len(),
{
    if s.len() > 0 && is_digit(s.first()) {
        1 + digit_run(s.drop_first())
    } else {
        0
    }
}

/// What reading `s` as a decimal `i32` gives.
///
/// The text is an optional sign, `+` or `-`, and then digits only. Going
/// from left to right, the first thing that is wrong decides the error: a
/// character that is no digit gives `InvalidDigit`, a digit that takes the
/// number out of the range of `i32` gives `PosOverflow` or `NegOverflow`.
pub open spec fn parse_int(s: Seq<char>) -> Result<i32, IntErrorKind> {
    if s.len() == 0 {
        Err(IntErrorKind::Empty)
    } else {
        let signed = s[0] == '+' || s[0] == '-';
        let body = if signed {
            s.skip(1)
        } else {
            s
        };
        let run = body.take(digit_run(body) as int);
        let value = if s[0] == '-' {
            -digits_value(run)
        } else {
            digits_value(run) as int
        };
        if body.len() == 0 {
            Err(IntErrorKind::InvalidDigit)
        } else if value > i32::MAX {
            Err(IntErrorKind::PosOverflow)
        } else if value < i32::MIN {
            Err(IntErrorKind::NegOverflow)
        } else if run.len() < body.len() {
            Err(IntErrorKind::InvalidDigit)
        } else {
            Ok(value as i32)
        }
    }
}

/// The digits of `n`, without a leading zero unless `n` is 0.
pub open spec fn decimal_nat(n: nat) -> Seq<char>
    decreases n,
{
    if n < 10 {
        seq![digit_char(n as int)]
    } else {
        decimal_nat(n / 10).push(digit_char((n % 10) as int))
    }
}

/// `v` in decimal, with `-` in front of a negative number.
pub open spec fn decimal(v: int) -> Seq<char> {
    if v < 0 {
        seq!['-'] + decimal_nat((-v) as nat)
    } else {
        decimal_nat(v as nat)
    }
}

/// `s` with spaces in front of it until it is `width` characters long.
pub open spec fn pad_left(s: Seq<char>, width: nat) -> Seq<char> {
    if s.len() >= width {
        s
    } else {
        Seq::new((width - s.len()) as nat, |k: int| ' ') + s
    }
}

/// `n / d` rounded to the nearest integer, a half going away from zero.
pub open spec fn round_div(n: int, d: int) -> int
    recommends
        d > 0,
{
    if n >= 0 {
        (2 * n + d) / (2 * d)
    } else {
        -((d - 2 * n) / (2 * d))
    }
}

/// The digits that `s` starts with are digits, and what follows them, if
/// anything, is not.
pub proof fn lemma_digit_run(s: Seq<char>)
    ensures
        digit_run(s) <= s.len(),
        forall|k: int| 0 <= k < digit_run(s) ==> is_digit(#[trigger] s[k]),
        digit_run(s) < s.len() ==> !is_digit(s[digit_run(s) as int]),
    decreases s.len(),
{
    if s.len() > 0 && is_digit(s.first()) {
        let rest = s.drop_first();
        lemma_digit_run(rest);
        assert forall|k: int| 0 <= k < digit_run(s) implies is_digit(#[trigger] s[k]) by {
            if k > 0 {
                assert(s[k] == rest[k - 1]);
            }
        }
        if digit_run(s) < s.len() {
            assert(s[digit_run(s) as int] == rest[digit_run(rest) as int]);
        }
    }
}

/// A longer prefix of `s` spells a number that is at least as large.
pub proof fn lemma_digits_value_grows(s: Seq<char>, shorter: int, longer: int)
    requires
        0 <= shorter <= longer <= s.len(),
    ensures
        digits_value(s.take(shorter)) <= digits_value(s.take(longer)),
    decreases longer - shorter,
{
    if shorter < longer {
        lemma_digits_value_grows(s, shorter, longer - 1);
        assert(s.take(longer).drop_last() == s.take(longer - 1));
    }
}

/// A text that holds digits only starts with as many digits as it is long.
pub proof fn lemma_digit_run_of_digits(s: Seq<char>)
    requires
        forall|k: int| 0 <= k < s.len() ==> is_digit(#[trigger] s[k]),
    ensures
        digit_run(s) == s.len(),
{
    lemma_digit_run(s);
}

/// What `decimal_nat` writes is digits only, and they spell the number.
pub proof fn lemma_decimal_nat_spells(n: nat)
    ensures
        decimal_nat(n).len() >= 1,
        forall|k: int| 0 <= k < decimal_nat(n).len() ==> is_digit(#[trigger] decimal_nat(n)[k]),
        digits_value(decimal_nat(n)) == n,
    decreases n,
{
    if n < 10 {
        let s = decimal_nat(n);
        assert(s.drop_last() == Seq::<char>::empty());
        assert(digits_value(s.drop_last()) == 0);
    } else {
        lemma_decimal_nat_spells(n / 10);
        let s = decimal_nat(n);
        assert(s.drop_last() == decimal_nat(n / 10));
        assert(s.last() == digit_char((n % 10) as int));
    }
}

/// Reading what `decimal` writes gives the number back.
pub proof fn lemma_parse_decimal(v: i32)
    ensures
        parse_int(decimal(v as int)) == Ok::<i32, IntErrorKind>(v),
{
    let s = decimal(v as int);
    if v < 0 {
        let body = decimal_nat((-v) as nat);
        lemma_decimal_nat_spells((-v) as nat);
        lemma_digit_run_of_digits(body);
        assert(s.skip(1) == body);
        assert(body.take(body.len() as int) == body);
    } else {
        lemma_decimal_nat_spells(v as nat);
        lemma_digit_run_of_digits(s);
        assert(s.take(s.len() as int) == s);
    }
}

/// `round_div(n, d)` is the integer nearest to `n / d`, and where two
/// integers are equally near, the one farther from zero: the quotient is at
/// most a half away from it, and any `other` integer is farther away, or as
/// far away and nearer to zero.
pub proof fn lemma_round_div_nearest(n: int, d: int, other: int)
    requires
        d > 0,
    ensures
        2 * abs(n - round_div(n, d) * d) <= d,
        2 * abs(n - round_div(n, d) * d) == d ==> abs(round_div(n, d)) * d > abs(n),
        other != round_div(n, d) ==> abs(n - other * d) >= abs(n - round_div(n, d) * d),
        other != round_div(n, d) && abs(n - other * d) == abs(n - round_div(n, d) * d) ==> abs(
            other,
        ) < abs(round_div(n, d)),
{
    let q = round_div(n, d);
    let x = if n >= 0 {
        2 * n + d
    } else {
        d - 2 * n
    };
    lemma_fundamental_div_mod(x, 2 * d);
    lemma_mod_bound(x, 2 * d);
    let p = x / (2 * d);
    let rem = x % (2 * d);
    assert(x == 2 * (d * p) + rem) by (nonlinear_arith)
        requires
            x == (2 * d) * p + rem,
    ;
    let r = n - q * d;
    assert(q * d == d * q) by (nonlinear_arith);
    assert(d * (-p) == -(d * p)) by (nonlinear_arith);
    if n >= 0 {
        assert(2 * r == rem - d);
    } else {
        assert(2 * r == d - rem);
    }
    let j = other - q;
    assert(other * d == q * d + j * d) by (nonlinear_arith)
        requires
            j == other - q,
    ;
    if j != 0 {
        assert(j * d >= d || j * d <= -d) by (nonlinear_arith)
            requires
                j != 0,
                d > 0,
        ;
        assert(j * d >= 2 * d || j * d <= -2 * d || j == 1 || j == -1) by (nonlinear_arith)
            requires
                j != 0,
                d > 0,
        ;
        assert(1 * d == d && (-1) * d == -d) by (nonlinear_arith);
    }
    if 2 * abs(r) == d {
        assert(d * q > 0 ==> q > 0) by (nonlinear_arith)
            requires
                d > 0,
        ;
        assert(d * q < 0 ==> q < 0) by (nonlinear_arith)
            requires
                d > 0,
        ;
        assert(abs(q) * d == abs(q * d)) by (nonlinear_arith)
            requires
                d > 0,
        ;
    }
}

/// The message of the error that `kind` stands for.
pub fn message_of(kind: IntErrorKind) -> (message: &'static str)
    ensures
        message@ == kind_message(kind),
{
    match kind {
        IntErrorKind::Empty => "cannot parse integer from empty string",
        IntErrorKind::InvalidDigit => "invalid digit found in string",
        IntErrorKind::PosOverflow => "number too large to fit in target type",
        IntErrorKind::NegOverflow => "number too small to fit in target type",
    }
}

/// `text` read as a decimal `i32`.
#[verifier::loop_isolation(false)]
pub fn parse_i32(text: &str) -> (parsed: Result<i32, IntErrorKind>)
    ensures
        parsed == parse_int(text@),
{
    let chars = to_chars(text);
    let n = chars.len();
    if n == 0 {
        return Err(IntErrorKind::Empty);
    }
    let negative = chars[0] == '-';
    let start: usize = if chars[0] == '-' || chars[0] == '+' {
        1
    } else {
        0
    };
    if start == n {
        return Err(IntErrorKind::InvalidDigit);
    }
    let ghost body = chars@.skip(start as int);
    proof {
        assert(chars@.skip(0) == chars@);
        lemma_digit_run(body);
    }
    let limit: i64 = if negative {
        0x8000_0000
    } else {
        0x7fff_ffff
    };
    let mut magnitude: i64 = 0;
    let mut i: usize = start;
    while i < n
        invariant
            start <= i <= n,
            forall|k: int| 0 <= k < i - start ==> is_digit(#[trigger] body[k]),
            magnitude == digits_value(body.take(i - start)),
            magnitude <= limit,
        decreases n - i,
    {
        let c = chars[i];
        assert(c == body[i - start]);
        if !('0' <= c && c <= '9') {
            return Err(IntErrorKind::InvalidDigit);
        }
        let digit: i64 = (c as u32 - '0' as u32) as i64;
        proof {
            assert(body.take(i - start + 1).drop_last() == body.take(i - start));
        }
        magnitude = magnitude * 10 + digit;
        if magnitude > limit {
            proof {
                lemma_digits_value_grows(body, i - start + 1, digit_run(body) as int);
            }
            if negative {
                return Err(IntErrorKind::NegOverflow);
            } else {
                return Err(IntErrorKind::PosOverflow);
            }
        }
        i += 1;
    }
    proof {
        assert(body.take(n - start) == body);
    }
    if negative {
        Ok((-magnitude) as i32)
    } else {
        Ok(magnitude as i32)
    }
}

/// Appends the digits of `n` to `out`.
fn push_digits(out: &mut Vec<char>, n: u32)
    ensures
        final(out)@ == old(out)@ + decimal_nat(n as nat),
    decreases n,
{
    if n >= 10 {
        push_digits(out, n / 10);
    }
    let digit: u8 = (n % 10) as u8;
    out.push((48u8 + digit) as char);
}

/// The characters of `v` in decimal.
pub fn decimal_chars(v: i32) -> (chars: Vec<char>)
    ensures
        chars@ == decimal(v as int),
{
    let mut chars: Vec<char> = Vec::new();
    if v < 0 {
        chars.push('-');
        push_digits(&mut chars, (-(v as i64)) as u32);
    } else {
        push_digits(&mut chars, v as u32);
    }
    chars
}

/// `v` in decimal, with spaces in front of it where it has fewer than
/// `width` characters.
pub fn padded(v: i32, width: usize) -> (text: String)
    ensures
        text@ == pad_left(decimal(v as int), width as nat),
{
    let chars = decimal_chars(v);
    let mut text = String::new();
    let mut filled: usize = chars.len();
    while filled < width
        invariant
            chars.len() <= filled,
            filled <= width || filled == chars.len(),
            text@ == Seq::new((filled - chars.len()) as nat, |k: int| ' '),
        decreases width - filled,
    {
        text.push(' ');
        filled += 1;
    }
    push_chars(&mut text, &chars, 0, chars.len());
    proof {
        assert(chars@.subrange(0, chars.len() as int) == chars@);
        assert(Seq::new(0nat, |k: int| ' ') + chars@ == chars@);
    }
    text
}

} // verus!
