//! What comes back from reading a kernel setting: its text, or the reason
//! why there is none.

use vstd::prelude::*;

verus! {

/// Why the text of a setting could not be had.
#[derive(Clone, Copy, Debug, PartialEq, Eq, Structural)]
pub enum Unavailable {
    /// The kernel does not offer the setting.
    NotFound,
    /// The caller is not allowed to read the setting.
    PermissionDenied,
    /// Reading failed for another reason.
    Unreadable,
}

/// Why a setting could not be read as a value of its type.
///
/// A text that could not be had and a text that does not hold a value are
/// told apart: the first is `Unavailable`, the second `Malformed` with the
/// error of the value's own grammar.
#[derive(Debug, PartialEq, Eq)]
pub enum ReadError<E> {
    /// There was no text to read the value from.
    Unavailable(Unavailable),
    /// The text does not hold a value.
    Malformed(E),
}

impl<E: Copy> Clone for ReadError<E> {
    fn clone(&self) -> (r: Self)
        ensures
            r == *self,
    {
        *self
    }
}

impl<E: Copy> Copy for ReadError<E> {}

/// The text of a setting without the line feed that ends it, if one does.
pub open spec fn strip_newline(s: Seq<char>) -> Seq<char> {
    if s.len() > 0 && s.last() == '\n' {
        s.drop_last()
    } else {
        s
    }
}

/// Drops one line feed from the end of `s`, if it ends in one.
pub fn without_newline<'a>(s: &'a [char]) -> (r: &'a [char])
    ensures
        r@ == strip_newline(s@),
{
    let len = s.len();
    if len > 0 && s[len - 1] == '\n' {
        vstd::slice::slice_subrange(s, 0, len - 1)
    } else {
        s
    }
}

} // verus!
