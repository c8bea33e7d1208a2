//! Cutting a line of text into its pieces.

use vstd::prelude::*;
use vstd::slice::slice_subrange;
use crate::chars::{lead, lemma_lead_is, lemma_lead_run, scan, CharClass};

verus! {

/// The pieces of `s` between its separators, the characters of `sep`, from
/// left to right.
///
/// Each separator ends one piece and starts the next, so a text with `k`
/// separators has `k + 1` pieces, some of them possibly empty; the empty
/// text has one empty piece.
pub open spec fn split_on(s: Seq<char>, sep: CharClass) -> Seq<Seq<char>>
    decreases s.len(),
{
    let n = lead(s, sep, false) as int;
    if n < s.len() {
        seq![s.take(n)] + split_on(s.skip(n + 1), sep)
    } else {
        seq![s]
    }
}

/// The tokens of `s`: its longest runs of characters that are not ASCII
/// whitespace, from left to right. A text of whitespace alone has none.
pub open spec fn tokens(s: Seq<char>) -> Seq<Seq<char>>
    decreases s.len(),
    via tokens_terminates
{
    let blank = lead(s, CharClass::AsciiSpace, true) as int;
    let n = lead(s.skip(blank), CharClass::AsciiSpace, false) as int;
    if n > 0 {
        seq![s.skip(blank).take(n)] + tokens(s.skip(blank).skip(n))
    } else {
        seq![]
    }
}

#[via_fn]
proof fn tokens_terminates(s: Seq<char>) {
    let blank = lead(s, CharClass::AsciiSpace, true) as int;
    lemma_lead_run(s, CharClass::AsciiSpace, true);
    lemma_lead_run(s.skip(blank), CharClass::AsciiSpace, false);
}

/// A text without separators is its own single piece.
pub proof fn lemma_split_on_whole(a: Seq<char>, sep: CharClass)
    requires
        forall|i: int| 0 <= i < a.len() ==> !sep.contains(#[trigger] a[i]),
    ensures
        split_on(a, sep) == seq![a],
{
    lemma_lead_is(a, sep, false, a.len() as int);
}

/// In front of a separator, a text without separators is the first piece,
/// and the pieces of what follows the separator are the further pieces.
pub proof fn lemma_split_on_cut(a: Seq<char>, c: char, b: Seq<char>, sep: CharClass)
    requires
        forall|i: int| 0 <= i < a.len() ==> !sep.contains(#[trigger] a[i]),
        sep.contains(c),
    ensures
        split_on(a + seq![c] + b, sep) == seq![a] + split_on(b, sep),
{
    let s = a + seq![c] + b;
    let n = a.len() as int;
    lemma_lead_is(s, sep, false, n);
    assert(s.take(n) == a);
    assert(s.skip(n + 1) == b);
}

/// In front of whitespace or the end of the text, a run without whitespace
/// is the first token, and the tokens of what follows are the further tokens.
pub proof fn lemma_tokens_cut(a: Seq<char>, b: Seq<char>)
    requires
        a.len() > 0,
        forall|i: int| 0 <= i < a.len() ==> !CharClass::AsciiSpace.contains(#[trigger] a[i]),
        b.len() > 0 ==> CharClass::AsciiSpace.contains(b[0]),
    ensures
        tokens(a + b) == seq![a] + tokens(b),
{
    let s = a + b;
    let n = a.len() as int;
    lemma_lead_is(s, CharClass::AsciiSpace, true, 0);
    assert(s.skip(0) == s);
    lemma_lead_is(s, CharClass::AsciiSpace, false, n);
    assert(s.take(n) == a);
    assert(s.skip(n) == b);
}

/// Whitespace in front of a text adds no token.
pub proof fn lemma_tokens_blank(c: char, b: Seq<char>)
    requires
        CharClass::AsciiSpace.contains(c),
    ensures
        tokens(seq![c] + b) == tokens(b),
{
    let s = seq![c] + b;
    assert(s.drop_first() == b);
    lemma_lead_run(b, CharClass::AsciiSpace, true);
    let blank = lead(b, CharClass::AsciiSpace, true) as int;
    assert(s.skip(blank + 1) == b.skip(blank));
}

/// Cuts the first piece off `s`: returns it, and what follows its separator
/// if there is one.
pub fn cut_piece<'a>(s: &'a [char], sep: CharClass) -> (r: (&'a [char], Option<&'a [char]>))
    ensures
        ({
            let n = lead(s@, sep, false) as int;
            &&& r.0@ == s@.take(n)
            &&& match r.1 {
                Some(rest) => n < s@.len() && rest@ == s@.skip(n + 1),
                None => n == s@.len(),
            }
        }),
        split_on(s@, sep) == match r.1 {
            Some(rest) => seq![r.0@] + split_on(rest@, sep),
            None => seq![r.0@],
        },
{
    let n = scan(s, sep, false);
    if n < s.len() {
        (slice_subrange(s, 0, n), Some(slice_subrange(s, n + 1, s.len())))
    } else {
        proof {
            assert(s@.take(n as int) == s@);
        }
        (s, None)
    }
}

/// Cuts the first token off `s`: returns it with what follows it, or `None`
/// where `s` holds no token.
pub fn cut_token<'a>(s: &'a [char]) -> (r: Option<(&'a [char], &'a [char])>)
    ensures
        ({
            let tail = s@.skip(lead(s@, CharClass::AsciiSpace, true) as int);
            let n = lead(tail, CharClass::AsciiSpace, false) as int;
            match r {
                Some((token, rest)) => n > 0 && token@ == tail.take(n) && rest@ == tail.skip(n),
                None => n == 0,
            }
        }),
        tokens(s@) == match r {
            Some((token, rest)) => seq![token@] + tokens(rest@),
            None => seq![],
        },
{
    let blank = scan(s, CharClass::AsciiSpace, true);
    let tail = slice_subrange(s, blank, s.len());
    let n = scan(tail, CharClass::AsciiSpace, false);
    if n > 0 {
        Some((slice_subrange(tail, 0, n), slice_subrange(tail, n, tail.len())))
    } else {
        None
    }
}

} // verus!
