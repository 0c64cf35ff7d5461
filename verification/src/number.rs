//! Decimal numbers as text: reading `u32`, `i32` and `i64` values and
//! writing unsigned values.

use vstd::prelude::*;

verus! {

/// The ASCII digits `0` to `9`.
pub open spec fn is_digit(c: char) -> bool {
    0x30 <= c as u32 <= 0x39
}

/// The number that an ASCII digit stands for.
pub open spec fn digit_value(c: char) -> int {
    c as u32 - 0x30
}

pub open spec fn all_digits(s: Seq<char>) -> bool {
    forall|i: int| 0 <= i < s.len() ==> is_digit(#[trigger] s[i])
}

/// The number written by a run of digits, most significant first.
pub open spec fn decimal_value(s: Seq<char>) -> int
    decreases s.len(),
{
    if s.len() == 0 {
        0
    } else {
        decimal_value(s.drop_last()) * 10 + digit_value(s.last())
    }
}

/// Whether `s` starts with the sign character `sign`.
pub open spec fn has_sign(s: Seq<char>, sign: char) -> bool {
    s.len() > 0 && s[0] == sign
}

/// The value of an unsigned decimal: an optional `+`, then one digit or
/// more, nothing else, and a value that fits.
pub open spec fn parsed_u32(s: Seq<char>) -> Option<u32> {
    let body = if has_sign(s, '+') {
        s.subrange(1, s.len() as int)
    } else {
        s
    };
    if body.len() > 0 && all_digits(body) && decimal_value(body) <= u32::MAX {
        Some(decimal_value(body) as u32)
    } else {
        None
    }
}

/// The value of a signed decimal within `low..=high`: an optional `+` or
/// `-`, then one digit or more, nothing else.
pub open spec fn parsed_signed(s: Seq<char>, low: int, high: int) -> Option<int> {
    let body = if has_sign(s, '+') || has_sign(s, '-') {
        s.subrange(1, s.len() as int)
    } else {
        s
    };
    let value = if has_sign(s, '-') {
        -decimal_value(body)
    } else {
        decimal_value(body)
    };
    if body.len() > 0 && all_digits(body) && low <= value <= high {
        Some(value)
    } else {
        None
    }
}

pub open spec fn parsed_i32(s: Seq<char>) -> Option<i32> {
    match parsed_signed(s, i32::MIN as int, i32::MAX as int) {
        Some(v) => Some(v as i32),
        None => None,
    }
}

pub open spec fn parsed_i64(s: Seq<char>) -> Option<i64> {
    match parsed_signed(s, i64::MIN as int, i64::MAX as int) {
        Some(v) => Some(v as i64),
        None => None,
    }
}

/// A digit run's value does not shrink when a digit is appended.
pub proof fn lemma_decimal_value_grows(s: Seq<char>, c: char)
    requires
        all_digits(s),
        is_digit(c),
    ensures
        decimal_value(s) >= 0,
        decimal_value(s.push(c)) == decimal_value(s) * 10 + digit_value(c),
        decimal_value(s.push(c)) >= decimal_value(s),
    decreases s.len(),
{
    assert(s.push(c).drop_last() == s);
    if s.len() > 0 {
        assert(all_digits(s.drop_last())) by {
            assert forall|i: int| 0 <= i < s.drop_last().len() implies is_digit(
                #[trigger] s.drop_last()[i],
            ) by {
                assert(s.drop_last()[i] == s[i]);
            }
        }
        lemma_decimal_value_grows(s.drop_last(), s.last());
        assert(s.drop_last().push(s.last()) == s);
    }
}

pub fn is_digit_char(c: char) -> (r: bool)
    ensures
        r == is_digit(c),
{
    let n: u32 = c as u32;
    0x30 <= n && n <= 0x39
}

/// What a run of digits amounts to, measured against a limit.
pub enum Magnitude {
    /// Empty, or some character is no digit.
    Malformed,
    /// All digits, with a value above the limit.
    TooLarge,
    /// All digits, with this value.
    Value(u64),
}

/// Reads `s[from..]` as a run of digits with a value of at most `limit`.
pub fn read_magnitude(s: &Vec<char>, from: usize, limit: u64) -> (m: Magnitude)
    requires
        from <= s.len(),
        limit >= 9,
    ensures
        ({
            let body = s@.subrange(from as int, s.len() as int);
            match m {
                Magnitude::Malformed => !(body.len() > 0 && all_digits(body)),
                Magnitude::TooLarge => body.len() > 0 && all_digits(body) && decimal_value(body)
                    > limit,
                Magnitude::Value(v) => body.len() > 0 && all_digits(body) && decimal_value(body)
                    == v && v <= limit,
            }
        }),
{
    let ghost body = s@.subrange(from as int, s.len() as int);
    if from == s.len() {
        return Magnitude::Malformed;
    }
    let mut acc: u64 = 0;
    let mut too_large = false;
    let mut i: usize = from;
    while i < s.len()
        invariant
            from <= i <= s.len(),
            limit >= 9,
            body == s@.subrange(from as int, s.len() as int),
            all_digits(body.take(i - from)),
            !too_large ==> acc == decimal_value(body.take(i - from)) && acc <= limit,
            too_large ==> decimal_value(body.take(i - from)) > limit,
        decreases s.len() - i,
    {
        let c = s[i];
        if !is_digit_char(c) {
            assert(body[i - from] == c);
            return Magnitude::Malformed;
        }
        proof {
            let head = body.take(i - from);
            assert(body.take(i - from + 1) == head.push(c));
            lemma_decimal_value_grows(head, c);
            assert forall|k: int| 0 <= k < head.push(c).len() implies is_digit(
                #[trigger] head.push(c)[k],
            ) by {
                if k < head.len() {
                    assert(head.push(c)[k] == head[k]);
                }
            }
        }
        if !too_large {
            let d: u64 = (c as u32 - 0x30) as u64;
            if acc > (limit - d) / 10 {
                too_large = true;
            } else {
                acc = acc * 10 + d;
            }
        }
        i += 1;
    }
    assert(body.take(s.len() - from) == body);
    if too_large {
        Magnitude::TooLarge
    } else {
        Magnitude::Value(acc)
    }
}

/// Reads the unsigned decimal `s`.
pub fn parse_u32(s: &Vec<char>) -> (r: Option<u32>)
    ensures
        r == parsed_u32(s@),
{
    let from: usize = if s.len() > 0 && s[0] == '+' {
        1
    } else {
        0
    };
    assert(s@.subrange(0, s.len() as int) == s@);
    match read_magnitude(s, from, 0xffff_ffff) {
        Magnitude::Value(v) => Some(v as u32),
        _ => None,
    }
}

/// Reads the signed decimal `s`.
pub fn parse_i32(s: &Vec<char>) -> (r: Option<i32>)
    ensures
        r == parsed_i32(s@),
{
    let negative = s.len() > 0 && s[0] == '-';
    let from: usize = if s.len() > 0 && (s[0] == '+' || s[0] == '-') {
        1
    } else {
        0
    };
    assert(s@.subrange(0, s.len() as int) == s@);
    if negative {
        match read_magnitude(s, from, 0x8000_0000) {
            Magnitude::Value(v) => {
                if v == 0x8000_0000 {
                    Some(i32::MIN)
                } else {
                    Some(-(v as i32))
                }
            },
            _ => None,
        }
    } else {
        match read_magnitude(s, from, 0x7fff_ffff) {
            Magnitude::Value(v) => Some(v as i32),
            _ => None,
        }
    }
}

/// Reads the signed decimal `s`.
pub fn parse_i64(s: &Vec<char>) -> (r: Option<i64>)
    ensures
        r == parsed_i64(s@),
{
    let negative = s.len() > 0 && s[0] == '-';
    let from: usize = if s.len() > 0 && (s[0] == '+' || s[0] == '-') {
        1
    } else {
        0
    };
    assert(s@.subrange(0, s.len() as int) == s@);
    if negative {
        match read_magnitude(s, from, 0x8000_0000_0000_0000) {
            Magnitude::Value(v) => {
                if v == 0x8000_0000_0000_0000 {
                    Some(i64::MIN)
                } else {
                    Some(-(v as i64))
                }
            },
            _ => None,
        }
    } else {
        match read_magnitude(s, from, 0x7fff_ffff_ffff_ffff) {
            Magnitude::Value(v) => Some(v as i64),
            _ => None,
        }
    }
}

/// The character of the digit `d`.
pub open spec fn digit_char(d: int) -> char {
    if d == 0 {
        '0'
    } else if d == 1 {
        '1'
    } else if d == 2 {
        '2'
    } else if d == 3 {
        '3'
    } else if d == 4 {
        '4'
    } else if d == 5 {
        '5'
    } else if d == 6 {
        '6'
    } else if d == 7 {
        '7'
    } else if d == 8 {
        '8'
    } else {
        '9'
    }
}

/// The decimal digits of `n`, most significant first, without leading zeros.
pub open spec fn decimal_text(n: nat) -> Seq<char>
    decreases n,
{
    if n < 10 {
        seq![digit_char(n as int)]
    } else {
        decimal_text(n / 10).push(digit_char((n % 10) as int))
    }
}

fn digit_of(d: u64) -> (c: char)
    requires
        d < 10,
    ensures
        c == digit_char(d as int),
{
    if d == 0 {
        '0'
    } else if d == 1 {
        '1'
    } else if d == 2 {
        '2'
    } else if d == 3 {
        '3'
    } else if d == 4 {
        '4'
    } else if d == 5 {
        '5'
    } else if d == 6 {
        '6'
    } else if d == 7 {
        '7'
    } else if d == 8 {
        '8'
    } else {
        '9'
    }
}

/// Appends the decimal digits of `n` to `s`.
pub fn push_decimal(s: &mut String, n: u64)
    ensures
        final(s)@ == old(s)@ + decimal_text(n as nat),
    decreases n,
{
    if n >= 10 {
        push_decimal(s, n / 10);
    }
    s.push(digit_of(n % 10));
}

/// The decimal digits of `n`, after a minus sign where `n` is negative.
pub open spec fn signed_text(n: int) -> Seq<char> {
    if n < 0 {
        "-"@ + decimal_text((-n) as nat)
    } else {
        decimal_text(n as nat)
    }
}

/// Appends the decimal form of `n` to `s`.
pub fn push_signed(s: &mut String, n: i32)
    ensures
        final(s)@ == old(s)@ + signed_text(n as int),
{
    if n < 0 {
        let ghost before = s@;
        crate::text::push_text(s, "-");
        let magnitude: u64 = (-(n as i64)) as u64;
        push_decimal(s, magnitude);
        assert(before + "-"@ + decimal_text(magnitude as nat) == before + ("-"@ + decimal_text(
            magnitude as nat,
        )));
    } else {
        push_decimal(s, n as u64);
    }
}

/// What `decimal_text` writes, `parsed_u32` reads back.
pub proof fn lemma_decimal_text_reads_back(n: nat)
    ensures
        decimal_text(n).len() > 0,
        all_digits(decimal_text(n)),
        decimal_value(decimal_text(n)) == n,
        !has_sign(decimal_text(n), '+'),
        n <= u32::MAX ==> parsed_u32(decimal_text(n)) == Some(n as u32),
    decreases n,
{
    if n < 10 {
        let t = decimal_text(n);
        reveal_with_fuel(decimal_value, 2);
        assert(t.drop_last().len() == 0);
        assert(t.last() == digit_char(n as int));
        assert(decimal_value(t) == n);
    } else {
        lemma_decimal_text_reads_back(n / 10);
        let head = decimal_text(n / 10);
        let c = digit_char((n % 10) as int);
        lemma_decimal_value_grows(head, c);
        assert forall|k: int| 0 <= k < head.push(c).len() implies is_digit(
            #[trigger] head.push(c)[k],
        ) by {
            if k < head.len() {
                assert(head.push(c)[k] == head[k]);
            }
        }
        assert(head.push(c)[0] == head[0]);
    }
}

} // verus!
