//! Character classes of the kernel's text formats, and scanning by class.

use vstd::prelude::*;

verus! {

/// A set of characters that a scan can follow or stop at.
#[derive(Clone, Copy, Debug, PartialEq, Eq, Structural)]
pub enum CharClass {
    /// The ASCII decimal digits, `'0'` to `'9'`.
    Digit,
    /// The full stop, `'.'`.
    Dot,
    /// An ASCII decimal digit or a full stop.
    Numeric,
    /// ASCII whitespace: space, tab, line feed, form feed, carriage return.
    AsciiSpace,
    /// Every character with the Unicode property `White_Space`.
    Space,
}

/// The ASCII decimal digits.
pub open spec fn is_digit(c: char) -> bool {
    '0' <= c && c <= '9'
}

/// The five characters that count as ASCII whitespace.
pub open spec fn is_ascii_space(c: char) -> bool {
    c == ' ' || c == '\t' || c == '\n' || c == '\u{000C}' || c == '\r'
}

/// The characters with the Unicode property `White_Space`.
pub open spec fn is_space(c: char) -> bool {
    ||| '\u{0009}' <= c && c <= '\u{000D}'
    ||| c == '\u{0020}'
    ||| c == '\u{0085}'
    ||| c == '\u{00A0}'
    ||| c == '\u{1680}'
    ||| '\u{2000}' <= c && c <= '\u{200A}'
    ||| c == '\u{2028}'
    ||| c == '\u{2029}'
    ||| c == '\u{202F}'
    ||| c == '\u{205F}'
    ||| c == '\u{3000}'
}

impl CharClass {
    /// Membership of `c` in the class.
    pub open spec fn contains(self, c: char) -> bool {
        match self {
            CharClass::Digit => is_digit(c),
            CharClass::Dot => c == '.',
            CharClass::Numeric => is_digit(c) || c == '.',
            CharClass::AsciiSpace => is_ascii_space(c),
            CharClass::Space => is_space(c),
        }
    }

    /// Tests whether `c` belongs to the class.
    pub fn has(&self, c: char) -> (r: bool)
        ensures
            r == self.contains(c),
    {
        match self {
            CharClass::Digit => '0' <= c && c <= '9',
            CharClass::Dot => c == '.',
            CharClass::Numeric => ('0' <= c && c <= '9') || c == '.',
            CharClass::AsciiSpace => {
                c == ' ' || c == '\t' || c == '\n' || c == '\u{000C}' || c == '\r'
            },
            CharClass::Space => {
                ('\u{0009}' <= c && c <= '\u{000D}') || c == '\u{0020}' || c == '\u{0085}'
                    || c == '\u{00A0}' || c == '\u{1680}' || ('\u{2000}' <= c && c <= '\u{200A}')
                    || c == '\u{2028}' || c == '\u{2029}' || c == '\u{202F}' || c == '\u{205F}'
                    || c == '\u{3000}'
            },
        }
    }
}

/// How many characters at the front of `s` are all inside `class` (when
/// `inside` is true) or all outside it (when `inside` is false).
pub open spec fn lead(s: Seq<char>, class: CharClass, inside: bool) -> nat
    decreases s.len(),
{
    if s.len() > 0 && class.contains(s[0]) == inside {
        1 + lead(s.drop_first(), class, inside)
    } else {
        0
    }
}

/// How many characters at the back of `s` are all inside `class` (when
/// `inside` is true) or all outside it (when `inside` is false).
pub open spec fn trail(s: Seq<char>, class: CharClass, inside: bool) -> nat
    decreases s.len(),
{
    if s.len() > 0 && class.contains(s.last()) == inside {
        1 + trail(s.drop_last(), class, inside)
    } else {
        0
    }
}

/// `lead` is the one length `n` at which the first `n` characters agree with
/// `inside` and the run cannot be extended.
pub proof fn lemma_lead_is(s: Seq<char>, class: CharClass, inside: bool, n: int)
    requires
        0 <= n <= s.len(),
        forall|i: int| 0 <= i < n ==> class.contains(#[trigger] s[i]) == inside,
        n < s.len() ==> class.contains(s[n]) != inside,
    ensures
        lead(s, class, inside) == n,
    decreases n,
{
    if n > 0 {
        let rest = s.drop_first();
        assert forall|i: int| 0 <= i < n - 1 implies class.contains(#[trigger] rest[i])
            == inside by {
            assert(rest[i] == s[i + 1]);
        }
        lemma_lead_is(rest, class, inside, n - 1);
    }
}

/// What `lead` returns: a run of agreeing characters that stops at the end
/// of `s` or in front of a character that disagrees.
pub proof fn lemma_lead_run(s: Seq<char>, class: CharClass, inside: bool)
    ensures
        lead(s, class, inside) <= s.len(),
        forall|i: int|
            0 <= i < lead(s, class, inside) ==> class.contains(#[trigger] s[i]) == inside,
        lead(s, class, inside) < s.len() ==> class.contains(s[lead(s, class, inside) as int])
            != inside,
    decreases s.len(),
{
    if s.len() > 0 && class.contains(s[0]) == inside {
        let rest = s.drop_first();
        lemma_lead_run(rest, class, inside);
        assert forall|i: int| 0 <= i < lead(s, class, inside) implies class.contains(
            #[trigger] s[i],
        ) == inside by {
            if i > 0 {
                assert(s[i] == rest[i - 1]);
            }
        }
        if lead(s, class, inside) < s.len() {
            assert(s[lead(s, class, inside) as int] == rest[lead(rest, class, inside) as int]);
        }
    }
}

/// Behind a text whose characters all agree with `inside`, the run goes on
/// as far as it goes in what follows.
pub proof fn lemma_lead_goes_on(x: Seq<char>, y: Seq<char>, class: CharClass, inside: bool)
    requires
        forall|i: int| 0 <= i < x.len() ==> class.contains(#[trigger] x[i]) == inside,
    ensures
        lead(x + y, class, inside) == x.len() + lead(y, class, inside),
{
    lemma_lead_run(y, class, inside);
    let n = x.len() + lead(y, class, inside);
    assert forall|i: int| 0 <= i < n implies class.contains(#[trigger] (x + y)[i]) == inside by {
        if i >= x.len() {
            assert((x + y)[i] == y[i - x.len()]);
        }
    }
    if n < (x + y).len() {
        assert((x + y)[n as int] == y[lead(y, class, inside) as int]);
    }
    lemma_lead_is(x + y, class, inside, n as int);
}

/// `trail` is the one length `n` at which the last `n` characters agree with
/// `inside` and the run cannot be extended.
pub proof fn lemma_trail_is(s: Seq<char>, class: CharClass, inside: bool, n: int)
    requires
        0 <= n <= s.len(),
        forall|i: int| s.len() - n <= i < s.len() ==> class.contains(#[trigger] s[i]) == inside,
        n < s.len() ==> class.contains(s[s.len() - n - 1]) != inside,
    ensures
        trail(s, class, inside) == n,
    decreases n,
{
    if n > 0 {
        let rest = s.drop_last();
        assert forall|i: int| rest.len() - (n - 1) <= i < rest.len() implies class.contains(
            #[trigger] rest[i],
        ) == inside by {
            assert(rest[i] == s[i]);
        }
        lemma_trail_is(rest, class, inside, n - 1);
    }
}

/// `s` without the whitespace at its front and at its back.
pub open spec fn trim(s: Seq<char>) -> Seq<char> {
    let front = s.skip(lead(s, CharClass::Space, true) as int);
    front.take(front.len() - trail(front, CharClass::Space, true))
}

/// The characters of `s`, in order.
pub fn chars_of(s: &str) -> (v: Vec<char>)
    ensures
        v@ == s@,
{
    broadcast use vstd::string::axiom_spec_iter;

    let mut v: Vec<char> = Vec::new();
    let it = s.chars();
    for c in iter: it
        invariant
            iter.seq() == s@,
            v@ == s@.take(iter.index()),
    {
        v.push(c);
    }
    v
}

/// Counts the characters at the front of `s` that agree with `inside`.
pub fn scan(s: &[char], class: CharClass, inside: bool) -> (n: usize)
    ensures
        n == lead(s@, class, inside),
        n <= s@.len(),
{
    let mut n: usize = 0;
    while n < s.len() && class.has(s[n]) == inside
        invariant
            n <= s.len(),
            forall|i: int| 0 <= i < n ==> class.contains(#[trigger] s@[i]) == inside,
        decreases s.len() - n,
    {
        n += 1;
    }
    proof {
        lemma_lead_is(s@, class, inside, n as int);
    }
    n
}

/// Counts the characters at the back of `s` that agree with `inside`.
pub fn scan_back(s: &[char], class: CharClass, inside: bool) -> (n: usize)
    ensures
        n == trail(s@, class, inside),
        n <= s@.len(),
{
    let len = s.len();
    let mut n: usize = 0;
    while n < len && class.has(s[len - n - 1]) == inside
        invariant
            len == s.len(),
            n <= len,
            forall|i: int| len - n <= i < len ==> class.contains(#[trigger] s@[i]) == inside,
        decreases len - n,
    {
        n += 1;
    }
    proof {
        lemma_trail_is(s@, class, inside, n as int);
    }
    n
}

/// Drops the whitespace at the front and at the back of `s`.
pub fn trimmed<'a>(s: &'a [char]) -> (r: &'a [char])
    ensures
        r@ == trim(s@),
{
    let start = scan(s, CharClass::Space, true);
    let front = vstd::slice::slice_subrange(s, start, s.len());
    let cut = scan_back(front, CharClass::Space, true);
    vstd::slice::slice_subrange(front, 0, front.len() - cut)
}

} // verus!
