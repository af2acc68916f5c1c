//! The date grammar: blanks, an optional "every" or "on", blanks, and the
//! rest of the input as the date.
//!
//! The grammar has no mandatory part, so it matches every input; what it
//! finds is not interpreted ("tomorrow" stays "tomorrow").

use vstd::prelude::*;
use crate::error::ParseError;
use crate::lex::{rest, tag, trim};
use crate::text::{skip_blanks, trimmed, without_leading_blanks};

verus! {

/// A date or recurrence as it was written.
#[derive(Debug)]
pub struct ReminderDate<'a> {
    /// The date, without surrounding whitespace; "today" where none was
    /// written. Never empty.
    pub content: &'a str,
    /// Whether the date was introduced by "every".
    pub repeated: bool,
}

/// The value of a `ReminderDate`.
pub struct DateView {
    pub content: Seq<char>,
    pub repeated: bool,
}

impl<'a> View for ReminderDate<'a> {
    type V = DateView;

    open spec fn view(&self) -> DateView {
        DateView { content: self.content@, repeated: self.repeated }
    }
}

/// How a date expression matched.
pub struct DateMatch {
    /// The keyword "every" or "on", where the input had one.
    pub keyword: Option<Seq<char>>,
    /// Everything behind the keyword and the blanks that follow it.
    pub body: Seq<char>,
}

impl DateMatch {
    /// The date that the match stands for: the body without surrounding
    /// whitespace, "today" where nothing is left of it, repeated only for
    /// the keyword "every".
    pub open spec fn date(self) -> DateView {
        DateView {
            content: if trimmed(self.body).len() == 0 {
                "today"@
            } else {
                trimmed(self.body)
            },
            repeated: self.keyword == Some("every"@),
        }
    }
}

/// The keyword that `s` starts with, if any.
pub open spec fn keyword_at(s: Seq<char>) -> Option<Seq<char>> {
    if "every"@.is_prefix_of(s) {
        Some("every"@)
    } else if "on"@.is_prefix_of(s) {
        Some("on"@)
    } else {
        None
    }
}

/// The date grammar on `s`. It is total: every input is a date expression.
pub open spec fn date_match(s: Seq<char>) -> DateMatch {
    let at_keyword = skip_blanks(s);
    let keyword = keyword_at(at_keyword);
    let after_keyword = match keyword {
        Some(word) => at_keyword.skip(word.len() as int),
        None => at_keyword,
    };
    DateMatch { keyword, body: skip_blanks(after_keyword) }
}

/// Reads all of `input` as a date expression. Always succeeds and leaves
/// nothing of the input.
pub fn parse_date<'a>(input: &'a str) -> (r: Result<(&'a str, ReminderDate<'a>), ParseError>)
    ensures
        r is Ok,
        r matches Ok((rest, date)) ==> rest@.len() == 0 && date@ == date_match(input@).date(),
        r matches Ok((_, date)) ==> date.content@.len() > 0,
        r matches Ok((_, date)) ==> (date.repeated <==> date_match(input@).keyword == Some(
            "every"@,
        )),
{
    let at_keyword = without_leading_blanks(input);
    let (after_keyword, repeated) = match tag("every", at_keyword) {
        Ok((rest, _)) => (rest, true),
        Err(_) => match tag("on", at_keyword) {
            Ok((rest, _)) => (rest, false),
            Err(_) => (at_keyword, false),
        },
    };
    let body_start = without_leading_blanks(after_keyword);
    match rest(body_start) {
        Ok((remainder, body)) => {
            let kept = trim(body);
            let content = if kept.is_empty() {
                "today"
            } else {
                kept
            };
            proof {
                lemma_repeated_iff_every(input@);
                lemma_date_content_nonempty(input@);
            }
            Ok((remainder, ReminderDate { content, repeated }))
        },
        // Never taken: taking the rest of an input cannot fail.
        Err(_) => Err(ParseError::NoTimeExpressionFound),
    }
}

/// The content of a date is never empty.
pub proof fn lemma_date_content_nonempty(s: Seq<char>)
    ensures
        date_match(s).date().content.len() > 0,
{
    reveal_strlit("today");
}

/// A date is repeated exactly when its keyword is "every": with "on", and
/// with no keyword at all, it is not. No other keyword exists.
pub proof fn lemma_repeated_iff_every(s: Seq<char>)
    ensures
        date_match(s).date().repeated <==> date_match(s).keyword == Some("every"@),
        date_match(s).date().repeated <==> "every"@.is_prefix_of(skip_blanks(s)),
        date_match(s).keyword is Some ==> date_match(s).keyword == Some("every"@) || date_match(
            s,
        ).keyword == Some("on"@),
{
    lemma_keywords_differ();
}

/// The two keywords are different words.
proof fn lemma_keywords_differ()
    ensures
        "every"@ != "on"@,
{
    reveal_strlit("every");
    reveal_strlit("on");
    assert("every"@.len() == 5);
    assert("on"@.len() == 2);
}

} // verus!
