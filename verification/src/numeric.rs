//! Decimal parsing of unsigned integers with the grammar and error kinds of
//! `str::parse` for the unsigned integer types: an optional leading `+`,
//! then one or more ASCII digits.
use vstd::prelude::*;

verus! {

/// Why a text is not an unsigned integer of the requested width.
#[derive(Clone, Copy, Debug, PartialEq, Eq, Structural)]
pub enum IntErrorKind {
    Empty,
    InvalidDigit,
    PosOverflow,
}

/// Whether `c` is an ASCII decimal digit.
pub open spec fn is_digit(c: char) -> bool {
    '0' <= c && c <= '9'
}

/// The value of an ASCII decimal digit.
pub open spec fn digit_value(c: char) -> int {
    (c as u32) - 48
}

/// Reads the digits of `d` left to right onto `acc`; the first character
/// that is not a digit, or the first digit that takes the value above `max`,
/// decides the error.
pub open spec fn scan_digits(d: Seq<char>, acc: int, max: int) -> Result<int, IntErrorKind>
    decreases d.len(),
{
    if d.len() == 0 {
        Ok(acc)
    } else if !is_digit(d[0]) {
        Err(IntErrorKind::InvalidDigit)
    } else if acc * 10 + digit_value(d[0]) > max {
        Err(IntErrorKind::PosOverflow)
    } else {
        scan_digits(d.drop_first(), acc * 10 + digit_value(d[0]), max)
    }
}

/// The value of `s` as an unsigned integer no larger than `max`.
pub open spec fn parse_unsigned_spec(s: Seq<char>, max: int) -> Result<int, IntErrorKind> {
    if s.len() == 0 {
        Err(IntErrorKind::Empty)
    } else if (s[0] == '+' || s[0] == '-') && s.len() == 1 {
        Err(IntErrorKind::InvalidDigit)
    } else if s[0] == '+' {
        scan_digits(s.drop_first(), 0, max)
    } else {
        scan_digits(s, 0, max)
    }
}

proof fn lemma_scan_digits_range(d: Seq<char>, acc: int, max: int)
    requires
        0 <= acc <= max,
    ensures
        scan_digits(d, acc, max) matches Ok(v) ==> 0 <= v <= max,
    decreases d.len(),
{
    if d.len() > 0 && is_digit(d[0]) && acc * 10 + digit_value(d[0]) <= max {
        lemma_scan_digits_range(d.drop_first(), acc * 10 + digit_value(d[0]), max);
    }
}

/// A parsed value lies between zero and `max`.
pub proof fn lemma_parse_unsigned_range(s: Seq<char>, max: int)
    requires
        0 <= max,
    ensures
        parse_unsigned_spec(s, max) matches Ok(v) ==> 0 <= v <= max,
{
    if s.len() > 0 {
        lemma_scan_digits_range(s.drop_first(), 0, max);
        lemma_scan_digits_range(s, 0, max);
    }
}

/// The text with which `ParseIntError` displays each kind.
pub open spec fn int_error_text(kind: IntErrorKind) -> Seq<char> {
    match kind {
        IntErrorKind::Empty => "cannot parse integer from empty string"@,
        IntErrorKind::InvalidDigit => "invalid digit found in string"@,
        IntErrorKind::PosOverflow => "number too large to fit in target type"@,
    }
}

/// The message `ParseIntError` displays for `kind`.
pub fn int_error_message(kind: IntErrorKind) -> (out: String)
    ensures
        out@ == int_error_text(kind),
{
    match kind {
        IntErrorKind::Empty => "cannot parse integer from empty string".to_owned(),
        IntErrorKind::InvalidDigit => "invalid digit found in string".to_owned(),
        IntErrorKind::PosOverflow => "number too large to fit in target type".to_owned(),
    }
}

proof fn lemma_overflow_test(acc: int, d: int, max: int)
    requires
        0 <= acc,
        0 <= d <= 9,
        9 <= max,
    ensures
        (acc * 10 + d > max) == (acc > (max - d) / 10),
{
    assert((acc * 10 + d > max) == (acc > (max - d) / 10)) by (nonlinear_arith)
        requires
            0 <= acc,
            0 <= d <= 9,
            9 <= max,
    ;
}

/// Parses `s` as an unsigned integer no larger than `max`.
pub fn parse_unsigned(s: &str, max: u128) -> (result: Result<u128, IntErrorKind>)
    requires
        max >= 9,
    ensures
        match parse_unsigned_spec(s@, max as int) {
            Ok(v) => result == Ok::<u128, IntErrorKind>(v as u128),
            Err(e) => result == Err::<u128, IntErrorKind>(e),
        },
{
    let cs = crate::text::chars_of(s);
    let n = cs.len();
    if n == 0 {
        return Err(IntErrorKind::Empty);
    }
    if (cs[0] == '+' || cs[0] == '-') && n == 1 {
        return Err(IntErrorKind::InvalidDigit);
    }
    let start: usize = if cs[0] == '+' {
        1
    } else {
        0
    };
    let ghost digits = cs@.subrange(start as int, n as int);
    assert(start == 1 ==> digits =~= s@.drop_first());
    assert(start == 0 ==> digits =~= s@);
    let mut acc: u128 = 0;
    let mut i: usize = start;
    while i < n
        invariant
            cs@ == s@,
            n == cs@.len(),
            start <= i <= n,
            acc <= max,
            9 <= max,
            scan_digits(digits, 0, max as int) == scan_digits(
                cs@.subrange(i as int, n as int),
                acc as int,
                max as int,
            ),
            digits == cs@.subrange(start as int, n as int),
            parse_unsigned_spec(s@, max as int) == scan_digits(digits, 0, max as int),
        decreases n - i,
    {
        let c = cs[i];
        assert(cs@.subrange(i as int, n as int)[0] == c);
        assert(cs@.subrange(i as int, n as int).drop_first() =~= cs@.subrange(
            i + 1,
            n as int,
        ));
        if !('0' <= c && c <= '9') {
            return Err(IntErrorKind::InvalidDigit);
        }
        let d: u128 = ((c as u32) - 48) as u128;
        proof {
            lemma_overflow_test(acc as int, d as int, max as int);
        }
        if acc > (max - d) / 10 {
            return Err(IntErrorKind::PosOverflow);
        }
        assert(acc * 10 + d <= max) by (nonlinear_arith)
            requires
                acc <= (max - d) / 10,
                d <= 9,
                9 <= max,
        ;
        acc = acc * 10 + d;
        i = i + 1;
    }
    assert(cs@.subrange(n as int, n as int) =~= Seq::<char>::empty());
    Ok(acc)
}

/// Parses `s` as a `u64` (`str::parse::<u64>`).
pub fn parse_u64_value(s: &str) -> (result: Result<u64, IntErrorKind>)
    ensures
        match parse_unsigned_spec(s@, u64::MAX as int) {
            Ok(v) => result == Ok::<u64, IntErrorKind>(v as u64),
            Err(e) => result == Err::<u64, IntErrorKind>(e),
        },
{
    proof {
        lemma_parsed_value_within_bound(s@, u64::MAX as int);
    }
    match parse_unsigned(s, u64::MAX as u128) {
        Ok(v) => Ok(v as u64),
        Err(e) => Err(e),
    }
}

/// Parses `s` as a `u32` (`str::parse::<u32>`).
pub fn parse_u32_value(s: &str) -> (result: Result<u32, IntErrorKind>)
    ensures
        match parse_unsigned_spec(s@, u32::MAX as int) {
            Ok(v) => result == Ok::<u32, IntErrorKind>(v as u32),
            Err(e) => result == Err::<u32, IntErrorKind>(e),
        },
{
    proof {
        lemma_parsed_value_within_bound(s@, u32::MAX as int);
    }
    match parse_unsigned(s, u32::MAX as u128) {
        Ok(v) => Ok(v as u32),
        Err(e) => Err(e),
    }
}

/// Parses `s` as a `usize` (`str::parse::<usize>`).
pub fn parse_usize_value(s: &str) -> (result: Result<usize, IntErrorKind>)
    ensures
        match parse_unsigned_spec(s@, usize::MAX as int) {
            Ok(v) => result == Ok::<usize, IntErrorKind>(v as usize),
            Err(e) => result == Err::<usize, IntErrorKind>(e),
        },
{
    proof {
        lemma_parsed_value_within_bound(s@, usize::MAX as int);
    }
    match parse_unsigned(s, usize::MAX as u128) {
        Ok(v) => Ok(v as usize),
        Err(e) => Err(e),
    }
}

/// Parses `s` as a `u128` (`str::parse::<u128>`).
pub fn parse_u128_value(s: &str) -> (result: Result<u128, IntErrorKind>)
    ensures
        match parse_unsigned_spec(s@, u128::MAX as int) {
            Ok(v) => result == Ok::<u128, IntErrorKind>(v as u128),
            Err(e) => result == Err::<u128, IntErrorKind>(e),
        },
{
    parse_unsigned(s, u128::MAX)
}

/// A parsed value never exceeds the bound it was parsed under.
pub proof fn lemma_parsed_value_within_bound(s: Seq<char>, max: int)
    requires
        0 <= max,
    ensures
        parse_unsigned_spec(s, max) matches Ok(v) ==> 0 <= v <= max,
{
    if s.len() > 0 && !((s[0] == '+' || s[0] == '-') && s.len() == 1) {
        if s[0] == '+' {
            lemma_scan_within_bound(s.drop_first(), 0, max);
        } else {
            lemma_scan_within_bound(s, 0, max);
        }
    }
}

proof fn lemma_scan_within_bound(d: Seq<char>, acc: int, max: int)
    requires
        0 <= acc <= max,
    ensures
        scan_digits(d, acc, max) matches Ok(v) ==> 0 <= v <= max,
    decreases d.len(),
{
    if d.len() > 0 && is_digit(d[0]) && acc * 10 + digit_value(d[0]) <= max {
        assert(acc * 10 + digit_value(d[0]) >= 0) by (nonlinear_arith)
            requires
                acc >= 0,
                digit_value(d[0]) >= 0,
        ;
        lemma_scan_within_bound(d.drop_first(), acc * 10 + digit_value(d[0]), max);
    }
}


/// The ASCII digit of `d` (for `d` below ten).
pub open spec fn digit_char(d: int) -> char {
    if d == 0 {
        '0'
    } else if d == 1 {
        '1'
    } else if d == 2 {
        '2'
    } else if d == 3 {
        '3'
    } else if d == 4 {
        '4'
    } else if d == 5 {
        '5'
    } else if d == 6 {
        '6'
    } else if d == 7 {
        '7'
    } else if d == 8 {
        '8'
    } else {
        '9'
    }
}

/// The decimal digits of `n`, without leading zeros (`"0"` for zero).
pub open spec fn decimal_spec(n: nat) -> Seq<char>
    decreases n,
{
    if n < 10 {
        seq![digit_char(n as int)]
    } else {
        decimal_spec(n / 10) + seq![digit_char((n % 10) as int)]
    }
}

fn digit(d: u64) -> (c: char)
    requires
        d < 10,
    ensures
        c == digit_char(d as int),
{
    if d == 0 {
        '0'
    } else if d == 1 {
        '1'
    } else if d == 2 {
        '2'
    } else if d == 3 {
        '3'
    } else if d == 4 {
        '4'
    } else if d == 5 {
        '5'
    } else if d == 6 {
        '6'
    } else if d == 7 {
        '7'
    } else if d == 8 {
        '8'
    } else {
        '9'
    }
}

/// Appends the decimal digits of `n` to `out`.
pub fn push_decimal(out: &mut String, n: u64)
    ensures
        final(out)@ == old(out)@ + decimal_spec(n as nat),
    decreases n,
{
    if n >= 10 {
        push_decimal(out, n / 10);
    }
    crate::text::string_push(out, digit(n % 10));
    assert(out@ =~= old(out)@ + decimal_spec(n as nat));
}

} // verus!
