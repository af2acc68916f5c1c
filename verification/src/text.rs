//! The mathematical model of text that every contract in this crate is
//! stated over: a string is the sequence of its characters, and the grammars
//! are described by how many leading characters of a sequence fall into a
//! character class.

use vstd::prelude::*;
use crate::lex::multispace0;

verus! {

/// Whether `c` carries the Unicode `White_Space` property, which is what
/// `char::is_whitespace` reports and what `str::trim` removes. The property
/// is a fixed table of the Unicode character database; this crate relies on
/// no particular entry of it.
pub uninterp spec fn is_whitespace(c: char) -> bool;

/// An ASCII decimal digit, `'0'` to `'9'`.
pub open spec fn is_digit(c: char) -> bool {
    '0' <= c && c <= '9'
}

/// One of the four characters that separate the tokens of the grammars:
/// space, tab, carriage return and line feed.
pub open spec fn is_blank(c: char) -> bool {
    c == ' ' || c == '\t' || c == '\r' || c == '\n'
}

/// The character classes that the grammars scan for.
pub enum CharClass {
    /// ASCII decimal digits.
    Digit,
    /// Space, tab, carriage return, line feed.
    Blank,
    /// Characters with the Unicode `White_Space` property.
    Whitespace,
}

impl CharClass {
    /// Membership of `c` in the class.
    pub open spec fn holds(self, c: char) -> bool {
        match self {
            CharClass::Digit => is_digit(c),
            CharClass::Blank => is_blank(c),
            CharClass::Whitespace => is_whitespace(c),
        }
    }
}

/// The length of the longest prefix of `s` whose characters all belong to
/// `class`.
pub open spec fn run_len(s: Seq<char>, class: CharClass) -> nat
    decreases s.len(),
{
    if s.len() > 0 && class.holds(s[0]) {
        1 + run_len(s.skip(1), class)
    } else {
        0
    }
}

/// `s` is non-empty and consists of ASCII decimal digits only.
pub open spec fn is_digits(s: Seq<char>) -> bool {
    s.len() > 0 && forall|i: int| 0 <= i < s.len() ==> is_digit(#[trigger] s[i])
}

/// `s` without its leading blanks.
pub open spec fn skip_blanks(s: Seq<char>) -> Seq<char> {
    s.skip(run_len(s, CharClass::Blank) as int)
}

/// `input` behind its leading blanks.
pub(crate) fn without_leading_blanks<'a>(input: &'a str) -> (rest: &'a str)
    ensures
        rest@ == skip_blanks(input@),
{
    match multispace0(input) {
        Ok((rest, _)) => rest,
        // Never taken: an empty run of blanks is a match too.
        Err(_) => input,
    }
}

/// `s` without the literal `lit` in front, or `s` itself where it does not
/// start with `lit`: an optional keyword.
pub open spec fn strip_literal(s: Seq<char>, lit: Seq<char>) -> Seq<char> {
    if lit.is_prefix_of(s) {
        s.skip(lit.len() as int)
    } else {
        s
    }
}

/// `s` without its leading and trailing whitespace.
pub open spec fn trimmed(s: Seq<char>) -> Seq<char> {
    let body = s.skip(run_len(s, CharClass::Whitespace) as int);
    body.take(body.len() - run_len(body.reverse(), CharClass::Whitespace))
}

/// A run is a prefix: it is never longer than the sequence, every character
/// inside it belongs to the class, and the character that follows it, if
/// there is one, does not.
pub proof fn lemma_run_len(s: Seq<char>, class: CharClass)
    ensures
        run_len(s, class) <= s.len(),
        forall|i: int| 0 <= i < run_len(s, class) ==> class.holds(#[trigger] s[i]),
        run_len(s, class) < s.len() ==> !class.holds(s[run_len(s, class) as int]),
    decreases s.len(),
{
    if s.len() > 0 && class.holds(s[0]) {
        let tail = s.skip(1);
        lemma_run_len(tail, class);
        assert forall|i: int| 0 <= i < run_len(s, class) implies class.holds(#[trigger] s[i]) by {
            if i > 0 {
                assert(s[i] == tail[i - 1]);
            }
        }
        if run_len(s, class) < s.len() {
            assert(s[run_len(s, class) as int] == tail[run_len(tail, class) as int]);
        }
    }
}

} // verus!
