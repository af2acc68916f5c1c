//! The time grammar: an optional "at", blanks, an hour, an optional
//! ":minute", blanks, and an optional "am" or "pm".
//!
//! Hour and minute are kept as the digits that were written. No range is
//! imposed on them: "32:412" is a time expression like any other.

use vstd::prelude::*;
use crate::error::ParseError;
use crate::lex::{digit1, tag};
use crate::text::{
    is_digit, is_digits, lemma_run_len, run_len, skip_blanks, strip_literal,
    without_leading_blanks, CharClass,
};

verus! {

/// A time of day as it was written.
#[derive(Debug)]
pub struct ReminderTime<'a> {
    /// The digits of the hour.
    pub hour: &'a str,
    /// The digits of the minute, or "00" where none was written.
    pub minute: &'a str,
    /// `false` for a time marked "pm"; `true` for "am" and for no marker.
    pub meridiem: bool,
}

/// The value of a `ReminderTime`.
pub struct TimeView {
    pub hour: Seq<char>,
    pub minute: Seq<char>,
    pub meridiem: bool,
}

impl<'a> View for ReminderTime<'a> {
    type V = TimeView;

    open spec fn view(&self) -> TimeView {
        TimeView { hour: self.hour@, minute: self.minute@, meridiem: self.meridiem }
    }
}

/// How a time expression matched: the pieces of the input that the grammar
/// recognised, and what it left.
pub struct TimeMatch {
    /// The run of digits that is the hour.
    pub hour: Seq<char>,
    /// The run of digits behind ":", where the input had one.
    pub minute: Option<Seq<char>>,
    /// The marker "am" or "pm", where the input had one.
    pub marker: Option<Seq<char>>,
    /// The input that follows the expression.
    pub rest: Seq<char>,
}

impl TimeMatch {
    /// The time that the match stands for: a missing minute reads "00", and
    /// only the marker "pm" makes it an afternoon time.
    pub open spec fn time(self) -> TimeView {
        TimeView {
            hour: self.hour,
            minute: match self.minute {
                Some(digits) => digits,
                None => "00"@,
            },
            meridiem: self.marker != Some("pm"@),
        }
    }
}

/// Where the hour has to stand: `s` behind an optional "at" and blanks.
pub open spec fn hour_start(s: Seq<char>) -> Seq<char> {
    skip_blanks(strip_literal(s, "at"@))
}

/// The marker that `s` starts with, if any.
pub open spec fn marker_at(s: Seq<char>) -> Option<Seq<char>> {
    if "am"@.is_prefix_of(s) {
        Some("am"@)
    } else if "pm"@.is_prefix_of(s) {
        Some("pm"@)
    } else {
        None
    }
}

/// The time grammar on `s`: `None` where no hour stands at `hour_start(s)`,
/// and otherwise the longest match. A ":" that no digit follows is not part
/// of the expression; the blanks behind hour and minute are, also where no
/// marker follows them.
pub open spec fn time_match(s: Seq<char>) -> Option<TimeMatch> {
    let start = hour_start(s);
    let hour_len = run_len(start, CharClass::Digit);
    if hour_len == 0 {
        None
    } else {
        let after_hour = start.skip(hour_len as int);
        let after_colon = strip_literal(after_hour, ":"@);
        let minute_len = if ":"@.is_prefix_of(after_hour) {
            run_len(after_colon, CharClass::Digit)
        } else {
            0
        };
        let after_minute = if minute_len > 0 {
            after_colon.skip(minute_len as int)
        } else {
            after_hour
        };
        let at_marker = skip_blanks(after_minute);
        let marker = marker_at(at_marker);
        Some(
            TimeMatch {
                hour: start.take(hour_len as int),
                minute: if minute_len > 0 {
                    Some(after_colon.take(minute_len as int))
                } else {
                    None
                },
                marker,
                rest: match marker {
                    Some(word) => at_marker.skip(word.len() as int),
                    None => at_marker,
                },
            },
        )
    }
}

/// Recognises a time expression at the start of `input` and returns what
/// follows it together with the time. Fails, with nothing consumed, exactly
/// when no digit stands behind the optional "at" and blanks.
pub fn parse_time<'a>(input: &'a str) -> (r: Result<(&'a str, ReminderTime<'a>), ParseError>)
    ensures
        match r {
            Ok((rest, time)) => time_match(input@) matches Some(m) && rest@ == m.rest && time@
                == m.time(),
            Err(e) => time_match(input@) is None && e == ParseError::NoTimeExpressionFound,
        },
        r is Ok <==> hour_start(input@).len() > 0 && is_digit(hour_start(input@)[0]),
        r matches Ok((_, time)) ==> (!time.meridiem <==> time_match(input@)->0.marker == Some(
            "pm"@,
        )),
        r matches Ok((_, time)) ==> is_digits(time.hour@) && is_digits(time.minute@),
{
    let after_at = match tag("at", input) {
        Ok((rest, _)) => rest,
        Err(_) => input,
    };
    let start = without_leading_blanks(after_at);
    match digit1(start) {
        Err(_) => Err(ParseError::NoTimeExpressionFound),
        Ok((after_hour, hour)) => {
            let (after_minute, minute) = match tag(":", after_hour) {
                Ok((after_colon, _)) => match digit1(after_colon) {
                    Ok((rest, digits)) => (rest, digits),
                    Err(_) => (after_hour, "00"),
                },
                Err(_) => (after_hour, "00"),
            };
            let at_marker = without_leading_blanks(after_minute);
            let (rest, meridiem) = match tag("am", at_marker) {
                Ok((rest, _)) => (rest, true),
                Err(_) => match tag("pm", at_marker) {
                    Ok((rest, _)) => (rest, false),
                    Err(_) => (at_marker, true),
                },
            };
            proof {
                lemma_meridiem_follows_marker(input@);
                lemma_time_digits(input@);
            }
            Ok((rest, ReminderTime { hour, minute, meridiem }))
        },
    }
}

/// The hour and the minute of a time are non-empty runs of digits, also
/// where the minute is the default "00".
pub proof fn lemma_time_digits(s: Seq<char>)
    ensures
        time_match(s) matches Some(found) ==> is_digits(found.time().hour) && is_digits(
            found.time().minute,
        ),
{
    if time_match(s) is Some {
        let start = hour_start(s);
        lemma_run_len(start, CharClass::Digit);
        let after_hour = start.skip(run_len(start, CharClass::Digit) as int);
        let after_colon = strip_literal(after_hour, ":"@);
        lemma_run_len(after_colon, CharClass::Digit);
        reveal_strlit("00");
    }
}

/// A time is an afternoon time exactly when its marker is "pm": with "am",
/// and with no marker at all, `meridiem` is `true`. No other marker exists.
pub proof fn lemma_meridiem_follows_marker(s: Seq<char>)
    ensures
        time_match(s) matches Some(found) ==> {
            &&& !found.time().meridiem <==> found.marker == Some("pm"@)
            &&& found.time().meridiem <==> found.marker == Some("am"@) || found.marker is None
            &&& found.marker is Some ==> found.marker == Some("am"@) || found.marker == Some(
                "pm"@,
            )
        },
{
    lemma_markers_differ();
}

/// The two markers are different words.
proof fn lemma_markers_differ()
    ensures
        "am"@ != "pm"@,
{
    reveal_strlit("am");
    reveal_strlit("pm");
    assert("am"@[0] == 'a');
    assert("pm"@[0] == 'p');
}

} // verus!
