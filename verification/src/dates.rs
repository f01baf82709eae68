//! Calendar dates and the calendar arithmetic the core needs.

use chrono::{Datelike, Months, NaiveDate};
use vstd::prelude::*;

verus! {

/// A day of the proleptic Gregorian calendar.
#[derive(Clone, Copy, Debug, PartialEq, Eq, Structural)]
pub struct Date {
    pub year: i32,
    /// 1 to 12.
    pub month: u32,
    /// 1 to 31.
    pub day: u32,
}

/// The date that `chrono::NaiveDate::parse_from_str` reads from a text in the
/// form year, month, day with hyphens between (`%Y-%m-%d`), as year, month
/// and day; nothing where the text is no such date.
pub uninterp spec fn date_parsed(text: Seq<char>) -> Option<(i32, u32, u32)>;

/// The date a number of months after a date, as
/// `chrono::NaiveDate::checked_add_months` gives it, the date given and taken
/// as year, month and day; nothing where the date given is no day of the
/// calendar or the result lies beyond the calendar.
pub uninterp spec fn date_plus_months(date: (i32, u32, u32), months: u32) -> Option<
    (i32, u32, u32),
>;

/// Calls `chrono::NaiveDate::parse_from_str` with the format `%Y-%m-%d` and
/// takes the date apart with `year`, `month` and `day`. Trusted: the result
/// depends on the text alone.
#[verifier::external_body]
fn parse_ymd(text: &str) -> (r: Option<Date>)
    ensures
        match r {
            Some(d) => date_parsed(text@) == Some((d.year, d.month, d.day)),
            None => date_parsed(text@) is None,
        },
{
    let date = NaiveDate::parse_from_str(text, "%Y-%m-%d").ok()?;
    Some(Date { year: date.year(), month: date.month(), day: date.day() })
}

/// Makes the date with `chrono::NaiveDate::from_ymd_opt`, calls
/// `checked_add_months` and takes the result apart. Trusted: the result
/// depends on the date and the number of months alone.
#[verifier::external_body]
fn add_months(date: Date, months: u32) -> (r: Option<Date>)
    ensures
        match r {
            Some(d) => date_plus_months((date.year, date.month, date.day), months) == Some(
                (d.year, d.month, d.day),
            ),
            None => date_plus_months((date.year, date.month, date.day), months) is None,
        },
{
    let start = NaiveDate::from_ymd_opt(date.year, date.month, date.day)?;
    let end = start.checked_add_months(Months::new(months))?;
    Some(Date { year: end.year(), month: end.month(), day: end.day() })
}

impl Date {
    /// The date a text stands for, if it stands for one.
    pub open spec fn spec_parse(text: Seq<char>) -> Option<Date> {
        match date_parsed(text) {
            Some((year, month, day)) => Some(Date { year, month, day }),
            None => None,
        }
    }

    /// The date `months` months later, where the calendar has it.
    pub open spec fn spec_plus_months(&self, months: u32) -> Option<Date> {
        match date_plus_months((self.year, self.month, self.day), months) {
            Some((year, month, day)) => Some(Date { year, month, day }),
            None => None,
        }
    }

    /// Reads a date written as year, month and day with hyphens between.
    pub fn parse(text: &str) -> (r: Option<Date>)
        ensures
            r == Date::spec_parse(text@),
    {
        parse_ymd(text)
    }

    /// The date `months` months later, where the calendar has it.
    pub fn plus_months(&self, months: u32) -> (r: Option<Date>)
        ensures
            r == self.spec_plus_months(months),
    {
        add_months(*self, months)
    }
}

} // verus!
