//! Decimal numerals: reading integers from text and writing them back.

use vstd::prelude::*;

verus! {

pub open spec fn is_digit(c: char) -> bool {
    '0' <= c <= '9'
}

/// The number that the digit `c` stands for.
pub open spec fn digit_value(c: char) -> int {
    c as u32 - '0' as u32
}

/// The digit that stands for `d`, for `d` from 0 to 9.
pub open spec fn digit_char(d: int) -> char {
    (d + '0' as u32) as char
}

pub open spec fn all_digits(s: Seq<char>) -> bool {
    forall|i: int| 0 <= i < s.len() ==> is_digit(#[trigger] s[i])
}

/// The number that the digits `s` spell in base ten; 0 for no digits at all.
pub open spec fn digits_value(s: Seq<char>) -> nat
    decreases s.len(),
{
    if s.len() == 0 {
        0
    } else {
        (digits_value(s.drop_last()) * 10 + digit_value(s.last())) as nat
    }
}

/// What a run of one or more digits spells.
pub open spec fn numeral(s: Seq<char>) -> Option<nat> {
    if s.len() > 0 && all_digits(s) {
        Some(digits_value(s))
    } else {
        None
    }
}

/// What `s` spells as a number without sign: digits, which a `+` may precede.
pub open spec fn unsigned_reading(s: Seq<char>) -> Option<nat> {
    if s.len() > 0 && s[0] == '+' {
        numeral(s.drop_first())
    } else {
        numeral(s)
    }
}

/// What `s` spells as a number with sign: digits, which a `+` or a `-` may precede.
pub open spec fn signed_reading(s: Seq<char>) -> Option<int> {
    if s.len() > 0 && s[0] == '-' {
        match numeral(s.drop_first()) {
            Some(v) => Some(-(v as int)),
            None => None,
        }
    } else {
        match unsigned_reading(s) {
            Some(v) => Some(v as int),
            None => None,
        }
    }
}

/// The `u32` that `s` spells, if it spells an unsigned number that fits.
pub open spec fn u32_reading(s: Seq<char>) -> Option<u32> {
    match unsigned_reading(s) {
        Some(v) if v <= u32::MAX => Some(v as u32),
        _ => None,
    }
}

/// The `usize` that `s` spells, if it spells an unsigned number that fits.
pub open spec fn usize_reading(s: Seq<char>) -> Option<usize> {
    match unsigned_reading(s) {
        Some(v) if v <= usize::MAX => Some(v as usize),
        _ => None,
    }
}

/// The `i64` that `s` spells, if it spells a signed number that fits.
pub open spec fn i64_reading(s: Seq<char>) -> Option<i64> {
    match signed_reading(s) {
        Some(v) if i64::MIN <= v <= i64::MAX => Some(v as i64),
        _ => None,
    }
}

/// More digits never spell a smaller number.
pub proof fn lemma_digits_value_grows(s: Seq<char>, k: int)
    requires
        all_digits(s),
        0 <= k <= s.len(),
    ensures
        digits_value(s.take(k)) <= digits_value(s),
    decreases s.len(),
{
    if k == s.len() {
        assert(s.take(k) == s);
    } else {
        assert(is_digit(s.last()));
        assert(s.drop_last().take(k) == s.take(k));
        lemma_digits_value_grows(s.drop_last(), k);
    }
}

/// Reads the digits of `s` from position `from` to its end, as a number up to `limit`.
fn read_numeral(s: &Vec<char>, from: usize, limit: u64) -> (r: Option<u64>)
    requires
        from <= s.len(),
        limit >= 9,
    ensures
        r == match numeral(s@.skip(from as int)) {
            Some(v) if v <= limit => Some(v as u64),
            _ => None,
        },
{
    let ghost body = s@.skip(from as int);
    if from == s.len() {
        return None;
    }
    let mut value: u64 = 0;
    let mut i: usize = from;
    while i < s.len()
        invariant
            from <= i <= s.len(),
            body == s@.skip(from as int),
            all_digits(body.take(i - from)),
            value == digits_value(body.take(i - from)),
            value <= limit,
            limit >= 9,
        decreases s.len() - i,
    {
        let c = s[i];
        proof {
            let t = body.take(i - from + 1);
            assert(t.drop_last() == body.take(i - from));
            assert(t.last() == c);
        }
        if !('0' <= c && c <= '9') {
            assert(!is_digit(body[i - from]));
            return None;
        }
        let d: u64 = (c as u32 - '0' as u32) as u64;
        assert(all_digits(body.take(i - from + 1))) by {
            assert forall|j: int| 0 <= j < i - from + 1 implies is_digit(
                #[trigger] body.take(i - from + 1)[j],
            ) by {
                if j < i - from {
                    assert(body.take(i - from)[j] == body.take(i - from + 1)[j]);
                }
            }
        }
        if value > (limit - d) / 10 {
            proof {
                if all_digits(body) {
                    lemma_digits_value_grows(body, i - from + 1);
                }
            }
            return None;
        }
        value = value * 10 + d;
        i += 1;
    }
    assert(body.take(s.len() - from) == body);
    Some(value)
}

/// Reads `s` as a `u32`, as `str::parse::<u32>` does.
pub fn read_u32(s: &Vec<char>) -> (r: Option<u32>)
    ensures
        r == u32_reading(s@),
{
    let from: usize = if s.len() > 0 && s[0] == '+' {
        1
    } else {
        0
    };
    assert(s@.skip(0) == s@);
    assert(s@.skip(1) == s@.drop_first());
    match read_numeral(s, from, 0xffff_ffff) {
        Some(v) => Some(v as u32),
        None => None,
    }
}

/// Reads `s` as a `usize`, as `str::parse::<usize>` does.
pub fn read_usize(s: &Vec<char>) -> (r: Option<usize>)
    ensures
        r == usize_reading(s@),
{
    let from: usize = if s.len() > 0 && s[0] == '+' {
        1
    } else {
        0
    };
    assert(s@.skip(0) == s@);
    assert(s@.skip(1) == s@.drop_first());
    match read_numeral(s, from, usize::MAX as u64) {
        Some(v) => Some(v as usize),
        None => None,
    }
}

/// Reads `s` as an `i64`, as `str::parse::<i64>` does.
pub fn read_i64(s: &Vec<char>) -> (r: Option<i64>)
    ensures
        r == i64_reading(s@),
{
    assert(s@.skip(0) == s@);
    assert(s@.skip(1) == s@.drop_first());
    if s.len() > 0 && s[0] == '-' {
        match read_numeral(s, 1, 0x8000_0000_0000_0000) {
            Some(v) => {
                if v == 0x8000_0000_0000_0000 {
                    Some(i64::MIN)
                } else {
                    Some(-(v as i64))
                }
            },
            None => None,
        }
    } else {
        let from: usize = if s.len() > 0 && s[0] == '+' {
            1
        } else {
            0
        };
        match read_numeral(s, from, 0x7fff_ffff_ffff_ffff) {
            Some(v) => Some(v as i64),
            None => None,
        }
    }
}

/// `n` written with two digits, for `n` below 100.
pub open spec fn two_digits(n: int) -> Seq<char> {
    seq![digit_char(n / 10), digit_char(n % 10)]
}

/// `n` written with four digits, for `n` below 10000.
pub open spec fn four_digits(n: int) -> Seq<char> {
    seq![
        digit_char(n / 1000),
        digit_char(n / 100 % 10),
        digit_char(n / 10 % 10),
        digit_char(n % 10),
    ]
}

/// `n` written in base ten without padding.
pub open spec fn decimal(n: nat) -> Seq<char>
    decreases n,
{
    if n < 10 {
        seq![digit_char(n as int)]
    } else {
        decimal(n / 10).push(digit_char(n as int % 10))
    }
}

fn digit(d: u32) -> (c: char)
    requires
        d <= 9,
    ensures
        c == digit_char(d as int),
        is_digit(c),
        digit_value(c) == d,
{
    (d as u8 + 48u8) as char
}

/// Appends `n`, written with two digits, to `out`.
pub(crate) fn push_two_digits(out: &mut Vec<char>, n: u32)
    requires
        n < 100,
    ensures
        final(out)@ == old(out)@ + two_digits(n as int),
{
    out.push(digit(n / 10));
    out.push(digit(n % 10));
}

/// Appends `n`, written with four digits, to `out`.
pub(crate) fn push_four_digits(out: &mut Vec<char>, n: u32)
    requires
        n < 10000,
    ensures
        final(out)@ == old(out)@ + four_digits(n as int),
{
    out.push(digit(n / 1000));
    out.push(digit(n / 100 % 10));
    out.push(digit(n / 10 % 10));
    out.push(digit(n % 10));
}

/// Appends `n`, written in base ten without padding, to `out`.
pub fn push_decimal(out: &mut Vec<char>, n: usize)
    ensures
        final(out)@ == old(out)@ + decimal(n as nat),
    decreases n,
{
    if n >= 10 {
        push_decimal(out, n / 10);
    }
    out.push(digit((n % 10) as u32));
}

} // verus!
