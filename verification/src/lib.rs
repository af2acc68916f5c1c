//! Splits a reminder sentence such as "feed the fish at 10am every Sunday"
//! into its free text, its time of day and its date or recurrence.
//!
//! The grammar is a leftmost-match scan: the sentence is cut at the first
//! position at which a time expression starts. Everything before the cut is
//! the reminder's text, the time expression is kept as written, and whatever
//! follows it is the date.

pub mod date;
pub mod error;
pub mod event;
pub mod lex;
pub mod text;
pub mod time;

pub use crate::error::ParseError;

pub use crate::date::{parse_date, ReminderDate};
pub use crate::event::{parse_event, ReminderEvent};
pub use crate::time::{parse_time, ReminderTime};
