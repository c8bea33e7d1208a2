//! Decimal integers as the kernel writes them, and as it is asked to read them.

use vstd::prelude::*;
use crate::chars::{is_digit, lemma_lead_run, scan, CharClass};

verus! {

/// Why a text is not an integer of the wanted type.
#[derive(Clone, Copy, Debug, PartialEq, Eq, Structural)]
pub enum IntError {
    /// The text holds no character at all.
    Empty,
    /// The text is not an optional sign followed by one or more digits.
    Invalid,
    /// The text is a number, but one outside the wanted range.
    OutOfRange,
}

/// The number that a digit stands for; 0 for any other character.
pub open spec fn digit_value(c: char) -> nat {
    if is_digit(c) {
        (c as u32 - '0' as u32) as nat
    } else {
        0
    }
}

/// The digit that stands for `d`, for `d` below ten.
pub open spec fn digit_char(d: nat) -> char {
    ('0' as u32 + d) as u32 as char
}

/// The number written by the digits of `s` in base ten, most significant
/// digit first.
pub open spec fn decimal_value(s: Seq<char>) -> nat
    decreases s.len(),
{
    if s.len() == 0 {
        0
    } else {
        10 * decimal_value(s.drop_last()) + digit_value(s.last())
    }
}

/// One or more characters, all of them digits.
pub open spec fn is_digits(s: Seq<char>) -> bool {
    s.len() > 0 && forall|i: int| 0 <= i < s.len() ==> is_digit(#[trigger] s[i])
}

/// The integer that `s` writes, if it lies in `min ..= max`.
///
/// A leading `'+'` is accepted; a leading `'-'` only where `signed` holds.
/// After the sign at least one digit must follow, and nothing but digits.
/// Leading zeros are accepted.
pub open spec fn parse_int(s: Seq<char>, signed: bool, min: int, max: int) -> Result<
    int,
    IntError,
> {
    if s.len() == 0 {
        Err(IntError::Empty)
    } else {
        let negative = signed && s[0] == '-';
        let digits = if s[0] == '+' || negative {
            s.drop_first()
        } else {
            s
        };
        let value = if negative {
            -(decimal_value(digits) as int)
        } else {
            decimal_value(digits) as int
        };
        if !is_digits(digits) {
            Err(IntError::Invalid)
        } else if min <= value <= max {
            Ok(value)
        } else {
            Err(IntError::OutOfRange)
        }
    }
}

/// The shortest decimal text of `n`: no sign, no leading zero.
pub open spec fn decimal(n: nat) -> Seq<char>
    decreases n,
{
    if n < 10 {
        seq![digit_char(n)]
    } else {
        decimal(n / 10).push(digit_char(n % 10))
    }
}

/// Reading more digits never gives a smaller number.
pub proof fn lemma_decimal_value_grows(s: Seq<char>, k: int)
    requires
        0 <= k <= s.len(),
    ensures
        decimal_value(s.take(k)) <= decimal_value(s),
    decreases s.len(),
{
    if k == s.len() {
        assert(s.take(k) == s);
    } else {
        assert(s.drop_last().take(k) == s.take(k));
        lemma_decimal_value_grows(s.drop_last(), k);
    }
}

/// The decimal text of a number is made of digits and reads back as that number.
pub proof fn lemma_decimal_reads_back(n: nat)
    ensures
        is_digits(decimal(n)),
        decimal_value(decimal(n)) == n,
    decreases n,
{
    if n < 10 {
        let s = decimal(n);
        assert(s.drop_last().len() == 0);
        assert(decimal_value(s.drop_last()) == 0);
    } else {
        lemma_decimal_reads_back(n / 10);
        let s = decimal(n);
        assert(s.drop_last() == decimal(n / 10));
    }
}

/// The decimal text of a number in range reads back as that number.
pub proof fn lemma_parse_decimal(n: nat, signed: bool, min: int, max: int)
    requires
        min <= n <= max,
    ensures
        parse_int(decimal(n), signed, min, max) == Ok::<int, IntError>(n as int),
{
    lemma_decimal_reads_back(n);
    assert(is_digit(decimal(n)[0]));
}

/// The one-character text of the digit for `d`.
fn digit_str(d: u8) -> (r: &'static str)
    requires
        d < 10,
    ensures
        r@ == seq![digit_char(d as nat)],
{
    proof {
        reveal_strlit("0");
        reveal_strlit("1");
        reveal_strlit("2");
        reveal_strlit("3");
        reveal_strlit("4");
        reveal_strlit("5");
        reveal_strlit("6");
        reveal_strlit("7");
        reveal_strlit("8");
        reveal_strlit("9");
    }
    match d {
        0 => "0",
        1 => "1",
        2 => "2",
        3 => "3",
        4 => "4",
        5 => "5",
        6 => "6",
        7 => "7",
        8 => "8",
        _ => "9",
    }
}

/// Writes `n` in decimal at the end of `out`.
pub fn push_decimal(out: &mut String, n: u64)
    ensures
        final(out)@ == old(out)@ + decimal(n as nat),
    decreases n,
{
    if n >= 10 {
        push_decimal(out, n / 10);
    }
    out.append(digit_str((n % 10) as u8));
    proof {
        if n >= 10 {
            assert(old(out)@ + decimal(n as nat / 10) + seq![digit_char(n as nat % 10)] == old(
                out,
            )@ + decimal(n as nat));
        }
    }
}

/// Reads the digits of `s` as a number of at most `limit`.
fn magnitude(s: &[char], limit: u128) -> (r: Result<u128, IntError>)
    ensures
        r == if !is_digits(s@) {
            Err::<u128, IntError>(IntError::Invalid)
        } else if decimal_value(s@) > limit {
            Err(IntError::OutOfRange)
        } else {
            Ok(decimal_value(s@) as u128)
        },
{
    proof {
        lemma_lead_run(s@, CharClass::Digit, true);
    }
    if s.len() == 0 || scan(s, CharClass::Digit, true) < s.len() {
        return Err(IntError::Invalid);
    }
    let mut acc: u128 = 0;
    let mut i: usize = 0;
    while i < s.len()
        invariant
            i <= s.len(),
            is_digits(s@),
            acc == decimal_value(s@.take(i as int)),
            acc <= limit,
        decreases s.len() - i,
    {
        let d: u128 = (s[i] as u32 - '0' as u32) as u128;
        proof {
            assert(s@.take(i + 1).drop_last() == s@.take(i as int));
            assert(decimal_value(s@.take(i + 1)) == 10 * acc + d);
            lemma_decimal_value_grows(s@, i + 1);
        }
        if d > limit || acc > (limit - d) / 10 {
            return Err(IntError::OutOfRange);
        }
        acc = acc * 10 + d;
        i += 1;
    }
    proof {
        assert(s@.take(i as int) == s@);
    }
    Ok(acc)
}

/// Reads `s` as an integer of `min ..= max`, with or without a sign.
fn parse_bounded(s: &[char], signed: bool, min: i128, max: i128) -> (r: Result<i128, IntError>)
    requires
        i128::MIN < min <= 0 <= max,
    ensures
        r == match parse_int(s@, signed, min as int, max as int) {
            Ok(v) => Ok::<i128, IntError>(v as i128),
            Err(e) => Err(e),
        },
{
    if s.len() == 0 {
        return Err(IntError::Empty);
    }
    let negative = signed && s[0] == '-';
    let digits = if s[0] == '+' || negative {
        vstd::slice::slice_subrange(s, 1, s.len())
    } else {
        s
    };
    proof {
        assert(s@.subrange(1, s@.len() as int) == s@.drop_first());
    }
    if negative {
        match magnitude(digits, (-min) as u128) {
            Ok(m) => Ok(-(m as i128)),
            Err(e) => Err(e),
        }
    } else {
        match magnitude(digits, max as u128) {
            Ok(m) => Ok(m as i128),
            Err(e) => Err(e),
        }
    }
}

/// Reads `s` as a `u8`.
pub fn parse_u8(s: &[char]) -> (r: Result<u8, IntError>)
    ensures
        r == match parse_int(s@, false, 0, u8::MAX as int) {
            Ok(v) => Ok::<u8, IntError>(v as u8),
            Err(e) => Err(e),
        },
{
    match parse_bounded(s, false, 0, 255) {
        Ok(v) => Ok(v as u8),
        Err(e) => Err(e),
    }
}

/// Reads `s` as a `u64`.
pub fn parse_u64(s: &[char]) -> (r: Result<u64, IntError>)
    ensures
        r == match parse_int(s@, false, 0, u64::MAX as int) {
            Ok(v) => Ok::<u64, IntError>(v as u64),
            Err(e) => Err(e),
        },
{
    match parse_bounded(s, false, 0, 0xffff_ffff_ffff_ffff) {
        Ok(v) => Ok(v as u64),
        Err(e) => Err(e),
    }
}

/// Reads `s` as an `i32`.
pub fn parse_i32(s: &[char]) -> (r: Result<i32, IntError>)
    ensures
        r == match parse_int(s@, true, i32::MIN as int, i32::MAX as int) {
            Ok(v) => Ok::<i32, IntError>(v as i32),
            Err(e) => Err(e),
        },
{
    match parse_bounded(s, true, -0x8000_0000, 0x7fff_ffff) {
        Ok(v) => Ok(v as i32),
        Err(e) => Err(e),
    }
}

} // verus!
