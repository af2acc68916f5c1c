//! The scan that finds a reminder in a sentence.
//!
//! The sentence is tried position by position, from the left, until a time
//! expression starts. The characters passed over are the reminder's text,
//! and what follows the time expression is its date. The first position wins,
//! even where a later one would give the more plausible reading: a house
//! number in the text is taken for the hour.

use vstd::prelude::*;
use crate::date::{date_match, lemma_date_content_nonempty, parse_date, DateView, ReminderDate};
use crate::error::ParseError;
use crate::lex::{anychar, push_char, trim};
use crate::text::{is_digit, is_digits, lemma_run_len, run_len, strip_literal, trimmed, CharClass};
use crate::time::{
    hour_start, lemma_time_digits, parse_time, time_match, ReminderTime, TimeView,
};

verus! {

/// A parsed reminder: what to be reminded of, and when.
#[derive(Debug)]
pub struct ReminderEvent<'a> {
    /// The sentence up to the time expression, without surrounding
    /// whitespace.
    pub text: String,
    /// The date or recurrence that follows the time.
    pub date: ReminderDate<'a>,
    /// The time of day.
    pub time: ReminderTime<'a>,
}

/// The value of a `ReminderEvent`.
pub struct EventView {
    pub text: Seq<char>,
    pub date: DateView,
    pub time: TimeView,
}

impl<'a> View for ReminderEvent<'a> {
    type V = EventView;

    open spec fn view(&self) -> EventView {
        EventView { text: self.text@, date: self.date@, time: self.time@ }
    }
}

/// `k` is the first offset of `s` at which a time expression starts.
pub open spec fn is_split(s: Seq<char>, k: int) -> bool {
    &&& 0 <= k <= s.len()
    &&& time_match(s.skip(k)) is Some
    &&& forall|j: int| 0 <= j < k ==> time_match(#[trigger] s.skip(j)) is None
}

/// The offset at which `s` is split into text and time, if there is one.
pub open spec fn split_offset(s: Seq<char>) -> Option<int> {
    if exists|k: int| is_split(s, k) {
        Some(choose|k: int| is_split(s, k))
    } else {
        None
    }
}

/// The reminder that `s` reads as when it is split at offset `k`.
pub open spec fn event_at(s: Seq<char>, k: int) -> EventView
    recommends
        0 <= k <= s.len(),
        time_match(s.skip(k)) is Some,
{
    let found = time_match(s.skip(k))->0;
    EventView {
        text: trimmed(s.take(k)),
        date: date_match(found.rest).date(),
        time: found.time(),
    }
}

/// The reminder that `s` reads as: `s` split at its first time expression,
/// or nothing where it has none.
pub open spec fn event_of(s: Seq<char>) -> Option<EventView> {
    match split_offset(s) {
        Some(k) => Some(event_at(s, k)),
        None => None,
    }
}

/// Some character of `s` is an ASCII decimal digit.
pub open spec fn has_digit(s: Seq<char>) -> bool {
    exists|i: int| 0 <= i < s.len() && is_digit(#[trigger] s[i])
}

/// Parses a reminder sentence. The sentence is split at the first offset at
/// which a time expression starts; it has one exactly when it holds a digit.
/// Nothing of the input is left over.
pub fn parse_event<'a>(input: &'a str) -> (r: Result<(&'a str, ReminderEvent<'a>), ParseError>)
    ensures
        match r {
            Ok((rest, event)) => rest@.len() == 0 && event_of(input@) == Some(event@),
            Err(e) => event_of(input@) is None && e == ParseError::NoTimeExpressionFound,
        },
        r is Ok <==> has_digit(input@),
        r is Ok ==> (split_offset(input@) matches Some(k) && is_split(input@, k)),
        r matches Ok((_, event)) ==> {
            &&& is_digits(event.time.hour@)
            &&& is_digits(event.time.minute@)
            &&& event.date.content@.len() > 0
        },
{
    let mut skipped = String::new();
    let mut cursor = input;
    loop
        invariant
            input@ == skipped@ + cursor@,
            forall|j: int| 0 <= j < skipped@.len() ==> time_match(#[trigger] input@.skip(j)) is None,
        decreases cursor@.len(),
    {
        let ghost k = skipped@.len() as int;
        assert(input@.skip(k) == cursor@);
        assert(input@.take(k) == skipped@);
        match parse_time(cursor) {
            Ok((after_time, time)) => {
                return match parse_date(after_time) {
                    Ok((rest, date)) => {
                        let text = trim(skipped.as_str()).to_owned();
                        proof {
                            lemma_split_unique(input@, k);
                            lemma_event_iff_digit(input@);
                            lemma_event_well_formed(input@);
                        }
                        Ok((rest, ReminderEvent { text, date, time }))
                    },
                    // Never taken: every input is a date expression.
                    Err(e) => Err(e),
                };
            },
            Err(_) => match anychar(cursor) {
                Ok((rest, c)) => {
                    push_char(&mut skipped, c);
                    cursor = rest;
                },
                Err(_) => {
                    proof {
                        lemma_no_match_no_split(input@);
                    }
                    return Err(ParseError::NoTimeExpressionFound);
                },
            },
        }
    }
}

/// A sentence has at most one split.
pub proof fn lemma_split_unique(s: Seq<char>, k: int)
    requires
        is_split(s, k),
    ensures
        split_offset(s) == Some(k),
{
    let chosen = choose|k: int| is_split(s, k);
    if chosen < k {
        assert(time_match(s.skip(chosen)) is None);
    } else if k < chosen {
        assert(time_match(s.skip(k)) is None);
    }
}

/// Where a time expression starts at offset `k` of `s`, the hour stands at
/// an offset from `k` on, and only the letters of "at" and blanks stand
/// between the two.
pub proof fn lemma_hour_offset(s: Seq<char>, k: int) -> (h: int)
    requires
        0 <= k <= s.len(),
        time_match(s.skip(k)) is Some,
    ensures
        k <= h < s.len(),
        hour_start(s.skip(k)) == s.skip(h),
        is_digit(s[h]),
        forall|i: int| k <= i < h ==> !is_digit(#[trigger] s[i]),
{
    let t = s.skip(k);
    let behind_at = strip_literal(t, "at"@);
    let word = t.len() - behind_at.len();
    let blanks = run_len(behind_at, CharClass::Blank) as int;
    lemma_run_len(behind_at, CharClass::Blank);
    lemma_run_len(hour_start(t), CharClass::Digit);
    let h = k + word + blanks;
    assert(hour_start(t) == s.skip(h));
    assert(hour_start(t)[0] == s[h]);
    reveal_strlit("at");
    assert forall|i: int| k <= i < h implies !is_digit(#[trigger] s[i]) by {
        if i < k + word {
            assert(s[i] == "at"@[i - k]);
        } else {
            assert(s[i] == behind_at[i - k - word]);
        }
    }
    h
}

/// A time expression starts at every digit.
pub proof fn lemma_digit_starts_time(s: Seq<char>, i: int)
    requires
        0 <= i < s.len(),
        is_digit(s[i]),
    ensures
        time_match(s.skip(i)) is Some,
        hour_start(s.skip(i)) == s.skip(i),
{
    let t = s.skip(i);
    reveal_strlit("at");
    assert(t[0] == s[i]);
    if "at"@.is_prefix_of(t) {
        assert("at"@[0] == t[0]);
    }
    assert(hour_start(t) == t);
}

/// Where a time expression starts at some offset of `s`, one starts at a
/// first offset, and that is where `s` is split.
pub proof fn lemma_first_match(s: Seq<char>, k: int)
    requires
        0 <= k <= s.len(),
        time_match(s.skip(k)) is Some,
    ensures
        split_offset(s) matches Some(first) && first <= k && is_split(s, first),
    decreases k,
{
    if exists|j: int| 0 <= j < k && time_match(#[trigger] s.skip(j)) is Some {
        let j = choose|j: int| 0 <= j < k && time_match(#[trigger] s.skip(j)) is Some;
        lemma_first_match(s, j);
    } else {
        lemma_split_unique(s, k);
    }
}

/// Where no time expression starts at any offset of `s`, `s` has no split,
/// and no digit.
pub proof fn lemma_no_match_no_split(s: Seq<char>)
    requires
        forall|j: int| 0 <= j <= s.len() ==> time_match(#[trigger] s.skip(j)) is None,
    ensures
        split_offset(s) is None,
        !has_digit(s),
{
    if has_digit(s) {
        let i = choose|i: int| 0 <= i < s.len() && is_digit(#[trigger] s[i]);
        lemma_digit_starts_time(s, i);
    }
}

/// A sentence reads as a reminder exactly when it holds a digit: one
/// without a digit never does, and one with a digit always does.
pub proof fn lemma_event_iff_digit(s: Seq<char>)
    ensures
        event_of(s) is Some <==> has_digit(s),
{
    if has_digit(s) {
        let i = choose|i: int| 0 <= i < s.len() && is_digit(#[trigger] s[i]);
        lemma_digit_starts_time(s, i);
        lemma_first_match(s, i);
    }
    if split_offset(s) is Some {
        let k = choose|k: int| is_split(s, k);
        let h = lemma_hour_offset(s, k);
    }
}

/// In every reminder the hour and the minute are non-empty runs of digits,
/// and the date's content is not empty.
pub proof fn lemma_event_well_formed(s: Seq<char>)
    ensures
        event_of(s) matches Some(event) ==> {
            &&& is_digits(event.time.hour)
            &&& is_digits(event.time.minute)
            &&& event.date.content.len() > 0
        },
{
    if split_offset(s) is Some {
        let k = choose|k: int| is_split(s, k);
        lemma_time_digits(s.skip(k));
        lemma_date_content_nonempty(time_match(s.skip(k))->0.rest);
    }
}

/// Leftmost match: where a time expression starts at offset `k`, the
/// sentence is split at the first offset at which one starts, which is `k`
/// or lies before `k`; no later start is considered.
pub proof fn lemma_leftmost_match(s: Seq<char>, k: int)
    requires
        0 <= k <= s.len(),
        time_match(s.skip(k)) is Some,
    ensures
        split_offset(s) matches Some(first) && {
            &&& first <= k
            &&& time_match(s.skip(first)) is Some
            &&& forall|j: int| 0 <= j < first ==> time_match(#[trigger] s.skip(j)) is None
            &&& event_of(s) == Some(event_at(s, first))
        },
{
    lemma_first_match(s, k);
}

/// The hour of a reminder is the first run of digits of the sentence,
/// whatever digits follow it: with the first digit of `s` at offset `d`, the
/// split lies at or before `d`, nothing but an "at" and blanks lies between
/// the two, and the hour is the run that starts at `d`.
pub proof fn lemma_hour_is_first_digit_run(s: Seq<char>, d: int)
    requires
        0 <= d < s.len(),
        is_digit(s[d]),
        forall|i: int| 0 <= i < d ==> !is_digit(#[trigger] s[i]),
    ensures
        split_offset(s) matches Some(first) && first <= d && hour_start(s.skip(first)) == s.skip(
            d,
        ),
        event_of(s) matches Some(event) && event.time.hour == s.skip(d).take(
            run_len(s.skip(d), CharClass::Digit) as int,
        ),
{
    lemma_digit_starts_time(s, d);
    lemma_first_match(s, d);
    let first = split_offset(s)->0;
    let h = lemma_hour_offset(s, first);
    assert(h == d);
}

} // verus!
