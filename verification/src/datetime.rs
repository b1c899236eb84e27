//! Calendar dates and the moment of an event, as the poll's rules read them.

use chrono::Datelike;
use vstd::prelude::*;

use crate::text::padded_decimal;

verus! {

/// The first year that a date can lie in: the first of a `chrono::NaiveDate`.
pub const MIN_YEAR: i32 = -262143;

/// The last year that a date can lie in: the last of a `chrono::NaiveDate`.
pub const MAX_YEAR: i32 = 262142;

/// Whether February has 29 days in `year`.
pub open spec fn is_leap_year(year: int) -> bool {
    year % 4 == 0 && (year % 100 != 0 || year % 400 == 0)
}

/// How many days the month `month` of `year` has; 0 where there is no such month.
pub open spec fn days_in_month(year: int, month: int) -> int {
    if month == 1 || month == 3 || month == 5 || month == 7 || month == 8 || month == 10 || month
        == 12 {
        31
    } else if month == 4 || month == 6 || month == 9 || month == 11 {
        30
    } else if month == 2 {
        if is_leap_year(year) {
            29
        } else {
            28
        }
    } else {
        0
    }
}

/// Whether the proleptic Gregorian calendar has the day `day` of the month
/// `month` of `year`, within the years that a date can lie in.
pub open spec fn is_calendar_date(year: int, month: int, day: int) -> bool {
    &&& MIN_YEAR <= year <= MAX_YEAR
    &&& 1 <= month <= 12
    &&& 1 <= day <= days_in_month(year, month)
}

/// A year as a date's text shows it: four digits from 0 to 9999, else a sign
/// and at least four digits.
pub open spec fn year_text(year: int) -> Seq<char> {
    if 0 <= year <= 9999 {
        padded_decimal(year as nat, 4)
    } else if year < 0 {
        seq!['-'] + padded_decimal((-year) as nat, 4)
    } else {
        seq!['+'] + padded_decimal(year as nat, 4)
    }
}

/// A date as the scrums table holds it: year, month and day, with hyphens
/// between them, month and day in two digits.
pub open spec fn date_text(year: int, month: int, day: int) -> Seq<char> {
    year_text(year) + seq!['-'] + padded_decimal(month as nat, 2) + seq!['-'] + padded_decimal(
        day as nat,
        2,
    )
}

/// The format of a date in the scrums table.
pub open spec fn scrum_date_format() -> Seq<char> {
    "%Y-%m-%d"@
}

/// What `chrono::NaiveDate::parse_from_str` reads out of `text` under
/// `format`: year, month and day, or nothing where it reports an error.
pub uninterp spec fn parsed_date(text: Seq<char>, format: Seq<char>) -> Option<(int, int, int)>;

/// A calendar day.
#[derive(Debug, Clone, Copy, PartialEq, Eq, Structural)]
pub struct ScrumDate {
    pub year: i32,
    pub month: u32,
    pub day: u32,
}

/// A moment as the local clock showed it: the day, the hour of that day, and
/// the seconds since the Unix epoch.
#[derive(Debug, Clone, Copy, PartialEq, Eq, Structural)]
pub struct LocalDateTime {
    pub date: ScrumDate,
    pub hour: u32,
    pub timestamp: i64,
}

/// Asks `chrono::NaiveDate::from_ymd_opt` whether there is such a day. It finds
/// one unless the calendar has no such day, month or day is out of range, or
/// the year lies outside the years of a `NaiveDate`.
#[verifier::external_body]
fn date_exists(year: i32, month: u32, day: u32) -> (exists: bool)
    ensures
        exists == is_calendar_date(year as int, month as int, day as int),
{
    chrono::NaiveDate::from_ymd_opt(year, month, day).is_some()
}

/// Calls `chrono::NaiveDate::parse_from_str` and hands out the year, month and
/// day of the date it read. Such a date is always a day of the calendar.
#[verifier::external_body]
fn parse_naive_date(text: &str, format: &str) -> (parsed: Result<ScrumDate, chrono::ParseError>)
    ensures
        match parsed {
            Ok(date) => date.is_valid() && parsed_date(text@, format@) == Some(
                (date.year as int, date.month as int, date.day as int),
            ),
            Err(_) => parsed_date(text@, format@) is None,
        },
{
    chrono::NaiveDate::parse_from_str(text, format).map(
        |d| ScrumDate { year: d.year(), month: d.month(), day: d.day() },
    )
}

/// Renders a day with `chrono::NaiveDate::format` under the format of the
/// scrums table. The year comes in four digits, or with a sign where it does
/// not fit them; month and day come in two digits each.
#[verifier::external_body]
fn format_naive_date(date: &ScrumDate, format: &str) -> (text: String)
    requires
        date.is_valid(),
        format@ == scrum_date_format(),
    ensures
        text@ == date_text(date.year as int, date.month as int, date.day as int),
{
    chrono::NaiveDate::from_ymd_opt(date.year, date.month, date.day).unwrap().format(
        format,
    ).to_string()
}

impl ScrumDate {
    /// Whether this is a day of the calendar.
    pub open spec fn is_valid(&self) -> bool {
        is_calendar_date(self.year as int, self.month as int, self.day as int)
    }

    /// The text that the scrums table holds for this day.
    pub open spec fn text(&self) -> Seq<char> {
        date_text(self.year as int, self.month as int, self.day as int)
    }

    /// The day `day` of the month `month` of `year`, if the calendar has it.
    pub fn new(year: i32, month: u32, day: u32) -> (date: Option<ScrumDate>)
        ensures
            date is Some <==> is_calendar_date(year as int, month as int, day as int),
            date is Some ==> date == Some(ScrumDate { year, month, day }),
    {
        if date_exists(year, month, day) {
            Some(ScrumDate { year, month, day })
        } else {
            None
        }
    }

    /// Reads a day from the text that the scrums table holds for it.
    pub fn parse(text: &str) -> (parsed: Result<ScrumDate, chrono::ParseError>)
        ensures
            match parsed {
                Ok(date) => date.is_valid() && parsed_date(text@, scrum_date_format()) == Some(
                    (date.year as int, date.month as int, date.day as int),
                ),
                Err(_) => parsed_date(text@, scrum_date_format()) is None,
            },
    {
        parse_naive_date(text, "%Y-%m-%d")
    }

    /// The text that the scrums table holds for this day.
    pub fn format(&self) -> (text: String)
        requires
            self.is_valid(),
        ensures
            text@ == self.text(),
    {
        format_naive_date(self, "%Y-%m-%d")
    }
}

} // verus!
