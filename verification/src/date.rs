//! Calendar dates: year, month and day as plain numbers, read and written by
//! the `chrono` crate.

use chrono::Datelike;
use std::fmt::Write;
use vstd::prelude::*;

verus! {

/// A calendar date.
#[derive(Clone, Copy, Debug, PartialEq, Eq, Structural)]
pub struct Date {
    pub year: i32,
    pub month: u32,
    pub day: u32,
}

/// Year, month and day of the date that `text` spells under the format
/// `format`, as the `chrono` crate reads it. `None` where it refuses.
pub uninterp spec fn chrono_parse(text: Seq<char>, format: Seq<char>) -> Option<(i32, u32, u32)>;

/// The text of the date with this year, month and day under the format
/// `format`, as the `chrono` crate writes it. `None` where no such date
/// exists or the format is refused.
pub uninterp spec fn chrono_format(year: i32, month: u32, day: u32, format: Seq<char>) -> Option<
    Seq<char>,
>;

/// The date with the given parts.
pub open spec fn date_of(parts: (i32, u32, u32)) -> Date {
    Date { year: parts.0, month: parts.1, day: parts.2 }
}

/// Calls `chrono::NaiveDate::parse_from_str` and copies year, month and day
/// out of the date. `None` exactly where the crate returns an error; the
/// parts are a function of text and format and are named.
#[verifier::external_body]
fn chrono_read(text: &str, format: &str) -> (r: Option<Date>)
    ensures
        r is Some <==> chrono_parse(text@, format@) is Some,
        r matches Some(d) ==> d == date_of(chrono_parse(text@, format@)->0),
{
    match chrono::NaiveDate::parse_from_str(text, format) {
        Ok(d) => Some(Date { year: d.year(), month: d.month(), day: d.day() }),
        Err(_) => None,
    }
}

/// Builds the date with `chrono::NaiveDate::from_ymd_opt` and writes it with
/// `NaiveDate::format`. `None` where there is no such date or the writing
/// fails; the text is a function of the four arguments and is named.
#[verifier::external_body]
fn chrono_write(year: i32, month: u32, day: u32, format: &str) -> (r: Option<String>)
    ensures
        r is Some <==> chrono_format(year, month, day, format@) is Some,
        r matches Some(s) ==> s@ == chrono_format(year, month, day, format@)->0,
{
    let date = chrono::NaiveDate::from_ymd_opt(year, month, day)?;
    let mut out = String::new();
    match write!(out, "{}", date.format(format)) {
        Ok(()) => Some(out),
        Err(_) => None,
    }
}

/// Whether `a` comes before `b` in the calendar.
pub open spec fn date_lt(a: Date, b: Date) -> bool {
    a.year < b.year || (a.year == b.year && (a.month < b.month || (a.month == b.month && a.day
        < b.day)))
}

impl Date {
    /// The date that `text` spells under `format`.
    pub fn parse(text: &str, format: &str) -> (r: Option<Date>)
        ensures
            match r {
                Some(d) => chrono_parse(text@, format@) == Some((d.year, d.month, d.day)),
                None => chrono_parse(text@, format@) is None,
            },
    {
        chrono_read(text, format)
    }

    /// The text of the date under `format`.
    pub fn format(&self, format: &str) -> (r: Option<String>)
        ensures
            match r {
                Some(s) => chrono_format(self.year, self.month, self.day, format@) == Some(s@),
                None => chrono_format(self.year, self.month, self.day, format@) is None,
            },
    {
        chrono_write(self.year, self.month, self.day, format)
    }

    /// Whether `self` comes before `other` in the calendar.
    pub fn before(&self, other: &Date) -> (r: bool)
        ensures
            r == date_lt(*self, *other),
    {
        self.year < other.year || (self.year == other.year && (self.month < other.month || (
        self.month == other.month && self.day < other.day)))
    }
}

} // verus!
