//! The kernel's release version.

use vstd::prelude::*;
use crate::chars::{chars_of, lead, lemma_lead_goes_on, lemma_lead_run, scan, CharClass};
use crate::decimal::{
    decimal, lemma_decimal_reads_back, lemma_parse_decimal, parse_int, parse_u8, push_decimal,
};
use crate::source::{strip_newline, without_newline, ReadError, Unavailable};
use crate::split::{cut_piece, lemma_split_on_cut, lemma_split_on_whole, split_on};

verus! {

/// Where the kernel keeps its release string.
pub const OSRELEASE_PATH: &'static str = "/proc/sys/kernel/osrelease";

/// One of the three numbers of a version.
#[derive(Clone, Copy, Debug, PartialEq, Eq, Structural)]
pub enum Component {
    /// The first number.
    Major,
    /// The second number.
    Minor,
    /// The third number.
    Patch,
}

/// Why a text is not a kernel version.
#[derive(Clone, Copy, Debug, PartialEq, Eq, Structural)]
pub enum VersionError {
    /// The text has too few pieces to hold this component.
    Missing(Component),
    /// The piece that holds this component is not a number from 0 to 255.
    Invalid(Component),
}

/// A kernel version, in major.minor.patch form.
#[derive(Clone, Copy, Debug, PartialEq, Eq, Structural, Ord)]
pub struct Version {
    pub major: u8,
    pub minor: u8,
    pub patch: u8,
}

/// The part of a release string that is read: everything in front of the
/// first character that is neither a digit nor a full stop.
pub open spec fn numeric_prefix(s: Seq<char>) -> Seq<char> {
    s.take(lead(s, CharClass::Numeric, true) as int)
}

/// The number that one piece of a release string holds.
pub open spec fn component(piece: Seq<char>, which: Component) -> Result<u8, VersionError> {
    match parse_int(piece, false, 0, u8::MAX as int) {
        Ok(v) => Ok(v as u8),
        Err(_) => Err(VersionError::Invalid(which)),
    }
}

/// The version that a release string such as `3.16.0-6-amd64` holds.
///
/// The numeric prefix is cut at its full stops. Its first three pieces are
/// major, minor and patch; further pieces are ignored. A piece that is
/// lacking is reported before a piece that is no number, and of several
/// pieces that are no number the leftmost is reported.
pub open spec fn parse_version(s: Seq<char>) -> Result<Version, VersionError> {
    let pieces = split_on(numeric_prefix(s), CharClass::Dot);
    if pieces.len() < 1 {
        Err(VersionError::Missing(Component::Major))
    } else if pieces.len() < 2 {
        Err(VersionError::Missing(Component::Minor))
    } else if pieces.len() < 3 {
        Err(VersionError::Missing(Component::Patch))
    } else {
        match component(pieces[0], Component::Major) {
            Err(e) => Err(e),
            Ok(major) => match component(pieces[1], Component::Minor) {
                Err(e) => Err(e),
                Ok(minor) => match component(pieces[2], Component::Patch) {
                    Err(e) => Err(e),
                    Ok(patch) => Ok(Version { major, minor, patch }),
                },
            },
        }
    }
}

impl VersionError {
    /// A sentence that names the failure.
    pub fn message(&self) -> (r: &'static str)
        ensures
            r@ == match *self {
                VersionError::Missing(Component::Major) => "Missing major version component"@,
                VersionError::Missing(Component::Minor) => "Missing minor version component"@,
                VersionError::Missing(Component::Patch) => "Missing patch version component"@,
                VersionError::Invalid(Component::Major) => "Failed to parse major version"@,
                VersionError::Invalid(Component::Minor) => "Failed to parse minor version"@,
                VersionError::Invalid(Component::Patch) => "Failed to parse patch version"@,
            },
    {
        match self {
            VersionError::Missing(Component::Major) => "Missing major version component",
            VersionError::Missing(Component::Minor) => "Missing minor version component",
            VersionError::Missing(Component::Patch) => "Missing patch version component",
            VersionError::Invalid(Component::Major) => "Failed to parse major version",
            VersionError::Invalid(Component::Minor) => "Failed to parse minor version",
            VersionError::Invalid(Component::Patch) => "Failed to parse patch version",
        }
    }
}

/// Reads one piece of a release string as the number of `which`.
fn read_component(piece: &[char], which: Component) -> (r: Result<u8, VersionError>)
    ensures
        r == component(piece@, which),
{
    match parse_u8(piece) {
        Ok(v) => Ok(v),
        Err(_) => Err(VersionError::Invalid(which)),
    }
}

impl Version {
    /// The version with the given three numbers.
    pub fn new(major: u8, minor: u8, patch: u8) -> (v: Version)
        ensures
            v == (Version { major, minor, patch }),
    {
        Version { major, minor, patch }
    }

    /// Reads the version at the front of `s`.
    pub(crate) fn from_chars(s: &[char]) -> (r: Result<Version, VersionError>)
        ensures
            r == parse_version(s@),
    {
        let end = scan(s, CharClass::Numeric, true);
        let prefix = vstd::slice::slice_subrange(s, 0, end);
        let (major, rest) = cut_piece(prefix, CharClass::Dot);
        let rest = match rest {
            Some(rest) => rest,
            None => { return Err(VersionError::Missing(Component::Minor)); },
        };
        let (minor, rest) = cut_piece(rest, CharClass::Dot);
        let rest = match rest {
            Some(rest) => rest,
            None => { return Err(VersionError::Missing(Component::Patch)); },
        };
        let (patch, _) = cut_piece(rest, CharClass::Dot);
        let major = read_component(major, Component::Major)?;
        let minor = read_component(minor, Component::Minor)?;
        let patch = read_component(patch, Component::Patch)?;
        Ok(Version { major, minor, patch })
    }

    /// Parses a kernel version string, in major.minor.patch syntax.
    ///
    /// Whatever follows the numeric prefix (a dash and a build name, say) is
    /// ignored.
    pub fn from_str(s: &str) -> (r: Result<Version, VersionError>)
        ensures
            r == parse_version(s@),
    {
        let chars = chars_of(s);
        Version::from_chars(chars.as_slice())
    }

    /// The version of the running kernel, from what reading
    /// `OSRELEASE_PATH` gave.
    pub fn current(raw: Result<&str, Unavailable>) -> (r: Result<Version, ReadError<VersionError>>)
        ensures
            r == match raw {
                Err(why) => Err::<Version, ReadError<VersionError>>(ReadError::Unavailable(why)),
                Ok(text) => match parse_version(strip_newline(text@)) {
                    Ok(version) => Ok(version),
                    Err(e) => Err(ReadError::Malformed(e)),
                },
            },
    {
        match raw {
            Err(why) => Err(ReadError::Unavailable(why)),
            Ok(text) => {
                let chars = chars_of(text);
                match Version::from_chars(without_newline(chars.as_slice())) {
                    Ok(version) => Ok(version),
                    Err(e) => Err(ReadError::Malformed(e)),
                }
            },
        }
    }

    /// The text of the version: its three numbers in decimal, with a full
    /// stop between them.
    pub open spec fn text(self) -> Seq<char> {
        decimal(self.major as nat) + seq!['.'] + decimal(self.minor as nat) + seq!['.'] + decimal(
            self.patch as nat,
        )
    }

    /// Writes the version as text.
    pub fn to_text(&self) -> (r: String)
        ensures
            r@ == self.text(),
    {
        proof {
            reveal_strlit(".");
        }
        let mut r = String::new();
        push_decimal(&mut r, self.major as u64);
        r.append(".");
        push_decimal(&mut r, self.minor as u64);
        r.append(".");
        push_decimal(&mut r, self.patch as u64);
        proof {
            assert("."@ == seq!['.']);
            assert(r@ == self.text());
        }
        r
    }
}

impl core::str::FromStr for Version {
    type Err = VersionError;

    /// Parses a kernel version string as `Version::from_str` does.
    fn from_str(s: &str) -> (r: Result<Version, VersionError>)
        ensures
            r == parse_version(s@),
    {
        Version::from_str(s)
    }
}

/// A release string always has a first piece, so its major number is never
/// reported as lacking.
pub proof fn lemma_major_never_missing(s: Seq<char>)
    ensures
        parse_version(s) != Err::<Version, VersionError>(
            VersionError::Missing(Component::Major),
        ),
{
}

/// The text of a version reads back as that version, whatever follows it,
/// as long as what follows does not start with a digit: a build name after a
/// dash or an underscore, say, or a full stop and further pieces.
pub proof fn lemma_version_reads_back(major: u8, minor: u8, patch: u8, suffix: Seq<char>)
    requires
        suffix.len() > 0 ==> !CharClass::Digit.contains(suffix[0]),
    ensures
        parse_version(Version { major, minor, patch }.text() + suffix) == Ok::<
            Version,
            VersionError,
        >(Version { major, minor, patch }),
{
    let a = decimal(major as nat);
    let b = decimal(minor as nat);
    let c = decimal(patch as nat);
    let text = Version { major, minor, patch }.text();
    lemma_decimal_reads_back(major as nat);
    lemma_decimal_reads_back(minor as nat);
    lemma_decimal_reads_back(patch as nat);
    // What is read of the suffix is empty or starts with a full stop.
    let more = numeric_prefix(suffix);
    lemma_lead_run(suffix, CharClass::Numeric, true);
    lemma_lead_goes_on(text, suffix, CharClass::Numeric, true);
    assert(numeric_prefix(text + suffix) == text + more);
    assert(text + more == a + seq!['.'] + (b + seq!['.'] + (c + more)));
    lemma_split_on_cut(a, '.', b + seq!['.'] + (c + more), CharClass::Dot);
    lemma_split_on_cut(b, '.', c + more, CharClass::Dot);
    if more.len() == 0 {
        assert(c + more == c);
        lemma_split_on_whole(c, CharClass::Dot);
    } else {
        assert(more[0] == suffix[0]);
        assert(c + more == c + seq!['.'] + more.drop_first());
        lemma_split_on_cut(c, '.', more.drop_first(), CharClass::Dot);
    }
    let pieces = split_on(text + more, CharClass::Dot);
    assert(pieces.len() >= 3 && pieces[0] == a && pieces[1] == b && pieces[2] == c);
    lemma_parse_decimal(major as nat, false, 0, u8::MAX as int);
    lemma_parse_decimal(minor as nat, false, 0, u8::MAX as int);
    lemma_parse_decimal(patch as nat, false, 0, u8::MAX as int);
}

/// Writing a version and reading the text gives the version back.
pub proof fn lemma_version_round_trip(v: Version)
    ensures
        parse_version(v.text()) == Ok::<Version, VersionError>(v),
{
    lemma_version_reads_back(v.major, v.minor, v.patch, Seq::empty());
    assert(v.text() + Seq::<char>::empty() == v.text());
}

} // verus!
