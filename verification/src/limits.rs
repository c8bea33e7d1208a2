//! The kernel's limits on System V semaphores.

use vstd::prelude::*;
use crate::chars::{chars_of, CharClass};
use crate::decimal::{
    decimal, lemma_decimal_reads_back, lemma_parse_decimal, parse_int, parse_u64, push_decimal,
};
use crate::source::{strip_newline, without_newline, ReadError, Unavailable};
use crate::split::{cut_token, lemma_tokens_blank, lemma_tokens_cut, tokens};

verus! {

/// Where the kernel keeps the semaphore limits.
pub const SEM_PATH: &'static str = "/proc/sys/kernel/sem";

/// One of the four limits, in the order in which the kernel writes them.
#[derive(Clone, Copy, Debug, PartialEq, Eq, Structural)]
pub enum Field {
    /// The first: `semmsl`.
    Semmsl,
    /// The second: `semmns`.
    Semmns,
    /// The third: `semopm`.
    Semopm,
    /// The fourth: `semmni`.
    Semmni,
}

/// Why a text does not hold the four semaphore limits.
#[derive(Clone, Copy, Debug, PartialEq, Eq, Structural)]
pub enum LimitsError {
    /// The text has too few tokens to hold this field.
    Missing(Field),
    /// The token of this field is not a number that fits in 64 bits.
    Invalid(Field),
}

/// The semaphore limits of the kernel.
#[derive(Clone, Copy, Debug, PartialEq, Eq, Structural)]
pub struct SemaphoreLimits {
    /// The maximum semaphores per semaphore set
    pub semmsl: u64,
    /// A system-wide limit on the number of semaphores in all semaphore sets
    pub semmns: u64,
    /// The maximum number of operations that may be specified in a semop(2) call
    pub semopm: u64,
    /// A system-wide limit on the maximum number of semaphore identifiers
    pub semmni: u64,
}

/// The number that one token of the limits holds.
pub open spec fn field(token: Seq<char>, which: Field) -> Result<u64, LimitsError> {
    match parse_int(token, false, 0, u64::MAX as int) {
        Ok(v) => Ok(v as u64),
        Err(_) => Err(LimitsError::Invalid(which)),
    }
}

/// The limits that a line of four numbers holds.
///
/// The line is cut into its tokens at runs of ASCII whitespace. The first
/// four tokens are the four fields, in order; further tokens are ignored. A
/// token that is lacking is reported before a token that is no number, and
/// of several tokens that are no number the leftmost is reported.
pub open spec fn parse_limits(s: Seq<char>) -> Result<SemaphoreLimits, LimitsError> {
    let t = tokens(s);
    if t.len() < 1 {
        Err(LimitsError::Missing(Field::Semmsl))
    } else if t.len() < 2 {
        Err(LimitsError::Missing(Field::Semmns))
    } else if t.len() < 3 {
        Err(LimitsError::Missing(Field::Semopm))
    } else if t.len() < 4 {
        Err(LimitsError::Missing(Field::Semmni))
    } else {
        match field(t[0], Field::Semmsl) {
            Err(e) => Err(e),
            Ok(semmsl) => match field(t[1], Field::Semmns) {
                Err(e) => Err(e),
                Ok(semmns) => match field(t[2], Field::Semopm) {
                    Err(e) => Err(e),
                    Ok(semopm) => match field(t[3], Field::Semmni) {
                        Err(e) => Err(e),
                        Ok(semmni) => Ok(SemaphoreLimits { semmsl, semmns, semopm, semmni }),
                    },
                },
            },
        }
    }
}

impl LimitsError {
    /// A sentence that names the failure.
    pub fn message(&self) -> (r: &'static str)
        ensures
            r@ == match *self {
                LimitsError::Missing(Field::Semmsl) => "Missing SEMMSL"@,
                LimitsError::Missing(Field::Semmns) => "Missing SEMMNS"@,
                LimitsError::Missing(Field::Semopm) => "Missing SEMOPM"@,
                LimitsError::Missing(Field::Semmni) => "Missing SEMMNI"@,
                LimitsError::Invalid(Field::Semmsl) => "Failed to parse SEMMSL"@,
                LimitsError::Invalid(Field::Semmns) => "Failed to parse SEMMNS"@,
                LimitsError::Invalid(Field::Semopm) => "Failed to parse SEMOPM"@,
                LimitsError::Invalid(Field::Semmni) => "Failed to parse SEMMNI"@,
            },
    {
        match self {
            LimitsError::Missing(Field::Semmsl) => "Missing SEMMSL",
            LimitsError::Missing(Field::Semmns) => "Missing SEMMNS",
            LimitsError::Missing(Field::Semopm) => "Missing SEMOPM",
            LimitsError::Missing(Field::Semmni) => "Missing SEMMNI",
            LimitsError::Invalid(Field::Semmsl) => "Failed to parse SEMMSL",
            LimitsError::Invalid(Field::Semmns) => "Failed to parse SEMMNS",
            LimitsError::Invalid(Field::Semopm) => "Failed to parse SEMOPM",
            LimitsError::Invalid(Field::Semmni) => "Failed to parse SEMMNI",
        }
    }
}

/// Takes the token of `which` from the front of `s`.
fn take_field<'a>(s: &'a [char], which: Field) -> (r: Result<(&'a [char], &'a [char]), LimitsError>)
    ensures
        match r {
            Ok((token, rest)) => tokens(s@) == seq![token@] + tokens(rest@),
            Err(e) => tokens(s@).len() == 0 && e == LimitsError::Missing(which),
        },
{
    match cut_token(s) {
        Some(cut) => Ok(cut),
        None => Err(LimitsError::Missing(which)),
    }
}

/// Reads one token of the limits as the number of `which`.
fn read_field(token: &[char], which: Field) -> (r: Result<u64, LimitsError>)
    ensures
        r == field(token@, which),
{
    match parse_u64(token) {
        Ok(v) => Ok(v),
        Err(_) => Err(LimitsError::Invalid(which)),
    }
}

impl SemaphoreLimits {
    /// The text of the limits: the four numbers in decimal, with a tab
    /// between them, as the kernel writes them on its line.
    pub open spec fn text(self) -> Seq<char> {
        decimal(self.semmsl as nat) + seq!['\t'] + decimal(self.semmns as nat) + seq!['\t']
            + decimal(self.semopm as nat) + seq!['\t'] + decimal(self.semmni as nat)
    }

    /// Writes the limits as text.
    pub fn to_text(&self) -> (r: String)
        ensures
            r@ == self.text(),
    {
        proof {
            reveal_strlit("\t");
        }
        let mut r = String::new();
        push_decimal(&mut r, self.semmsl);
        r.append("\t");
        push_decimal(&mut r, self.semmns);
        r.append("\t");
        push_decimal(&mut r, self.semopm);
        r.append("\t");
        push_decimal(&mut r, self.semmni);
        proof {
            assert("\t"@ == seq!['\t']);
            assert(r@ == self.text());
        }
        r
    }

    /// Reads the four limits from the characters of a line.
    pub(crate) fn from_chars(s: &[char]) -> (r: Result<SemaphoreLimits, LimitsError>)
        ensures
            r == parse_limits(s@),
    {
        let (semmsl, rest) = take_field(s, Field::Semmsl)?;
        let (semmns, rest) = take_field(rest, Field::Semmns)?;
        let (semopm, rest) = take_field(rest, Field::Semopm)?;
        let (semmni, _) = take_field(rest, Field::Semmni)?;
        let semmsl = read_field(semmsl, Field::Semmsl)?;
        let semmns = read_field(semmns, Field::Semmns)?;
        let semopm = read_field(semopm, Field::Semopm)?;
        let semmni = read_field(semmni, Field::Semmni)?;
        Ok(SemaphoreLimits { semmsl, semmns, semopm, semmni })
    }

    /// Parses the four limits from a line such as the kernel writes it.
    pub fn from_str(s: &str) -> (r: Result<SemaphoreLimits, LimitsError>)
        ensures
            r == parse_limits(s@),
    {
        let chars = chars_of(s);
        SemaphoreLimits::from_chars(chars.as_slice())
    }

    /// The limits of the running kernel, from what reading `SEM_PATH` gave.
    pub fn new(raw: Result<&str, Unavailable>) -> (r: Result<SemaphoreLimits, ReadError<LimitsError>>)
        ensures
            r == match raw {
                Err(why) => Err::<SemaphoreLimits, ReadError<LimitsError>>(
                    ReadError::Unavailable(why),
                ),
                Ok(text) => match parse_limits(strip_newline(text@)) {
                    Ok(limits) => Ok(limits),
                    Err(e) => Err(ReadError::Malformed(e)),
                },
            },
    {
        match raw {
            Err(why) => Err(ReadError::Unavailable(why)),
            Ok(text) => {
                let chars = chars_of(text);
                match SemaphoreLimits::from_chars(without_newline(chars.as_slice())) {
                    Ok(limits) => Ok(limits),
                    Err(e) => Err(ReadError::Malformed(e)),
                }
            },
        }
    }
}

impl core::str::FromStr for SemaphoreLimits {
    type Err = LimitsError;

    /// Parses the four limits as `SemaphoreLimits::from_str` does.
    fn from_str(s: &str) -> (r: Result<SemaphoreLimits, LimitsError>)
        ensures
            r == parse_limits(s@),
    {
        SemaphoreLimits::from_str(s)
    }
}

/// The four numbers of the limits, written in decimal with one character
/// of ASCII whitespace after each of the first three, read back as those
/// limits, whatever follows them, as long as what follows starts with
/// whitespace.
pub proof fn lemma_limits_read_back(
    limits: SemaphoreLimits,
    sep1: char,
    sep2: char,
    sep3: char,
    suffix: Seq<char>,
)
    requires
        CharClass::AsciiSpace.contains(sep1),
        CharClass::AsciiSpace.contains(sep2),
        CharClass::AsciiSpace.contains(sep3),
        suffix.len() > 0 ==> CharClass::AsciiSpace.contains(suffix[0]),
    ensures
        parse_limits(
            decimal(limits.semmsl as nat) + seq![sep1] + decimal(limits.semmns as nat) + seq![sep2]
                + decimal(limits.semopm as nat) + seq![sep3] + decimal(limits.semmni as nat)
                + suffix,
        ) == Ok::<SemaphoreLimits, LimitsError>(limits),
{
    let a = decimal(limits.semmsl as nat);
    let b = decimal(limits.semmns as nat);
    let c = decimal(limits.semopm as nat);
    let d = decimal(limits.semmni as nat);
    let line = a + seq![sep1] + b + seq![sep2] + c + seq![sep3] + d + suffix;
    lemma_decimal_reads_back(limits.semmsl as nat);
    lemma_decimal_reads_back(limits.semmns as nat);
    lemma_decimal_reads_back(limits.semopm as nat);
    lemma_decimal_reads_back(limits.semmni as nat);
    assert(line == a + (seq![sep1] + (b + (seq![sep2] + (c + (seq![sep3] + (d + suffix)))))));
    lemma_tokens_cut(a, seq![sep1] + (b + (seq![sep2] + (c + (seq![sep3] + (d + suffix))))));
    lemma_tokens_blank(sep1, b + (seq![sep2] + (c + (seq![sep3] + (d + suffix)))));
    lemma_tokens_cut(b, seq![sep2] + (c + (seq![sep3] + (d + suffix))));
    lemma_tokens_blank(sep2, c + (seq![sep3] + (d + suffix)));
    lemma_tokens_cut(c, seq![sep3] + (d + suffix));
    lemma_tokens_blank(sep3, d + suffix);
    lemma_tokens_cut(d, suffix);
    assert(tokens(line) == seq![a, b, c, d] + tokens(suffix));
    lemma_parse_decimal(limits.semmsl as nat, false, 0, u64::MAX as int);
    lemma_parse_decimal(limits.semmns as nat, false, 0, u64::MAX as int);
    lemma_parse_decimal(limits.semopm as nat, false, 0, u64::MAX as int);
    lemma_parse_decimal(limits.semmni as nat, false, 0, u64::MAX as int);
}

/// Writing the limits and reading the text gives the limits back.
pub proof fn lemma_limits_round_trip(limits: SemaphoreLimits)
    ensures
        parse_limits(limits.text()) == Ok::<SemaphoreLimits, LimitsError>(limits),
{
    lemma_limits_read_back(limits, '\t', '\t', '\t', Seq::empty());
    assert(limits.text() + Seq::<char>::empty() == limits.text());
}

} // verus!
