use chrono::Datelike;
use vstd::prelude::*;

use crate::error::ApiError;
use crate::text::append;

verus! {

/// A calendar date.
#[derive(Debug, Clone, Copy, PartialEq, Eq, Structural)]
pub struct Date {
    pub year: i32,
    pub month: u32,
    pub day: u32,
}

impl Date {
    /// Both dates lie in the same calendar month.
    pub open spec fn same_month(self, other: Date) -> bool {
        self.year == other.year && self.month == other.month
    }

    pub fn is_same_month(&self, other: &Date) -> (r: bool)
        ensures
            r == self.same_month(*other),
    {
        self.year == other.year && self.month == other.month
    }

    /// A key that orders dates chronologically.
    pub open spec fn key(self) -> int {
        self.year * 512 + self.month * 32 + self.day
    }

    pub fn sort_key(&self) -> (r: i64)
        ensures
            r == self.key(),
    {
        self.year as i64 * 512 + self.month as i64 * 32 + self.day as i64
    }

    pub open spec fn wf(self) -> bool {
        1 <= self.month <= 12 && 1 <= self.day <= 31
    }
}

/// The date that chrono's `NaiveDate::parse_from_str` reads from `s` under
/// the format `fmt`, as year, month and day, or `None` where it fails.
pub uninterp spec fn parsed_date_of(s: Seq<char>, fmt: Seq<char>) -> Option<(i32, u32, u32)>;

/// Relies on chrono's `NaiveDate::parse_from_str`, `Datelike::year`, `month`
/// and `day`: a parsed date is a valid calendar date.
#[verifier::external_body]
fn parse_date(s: &str, fmt: &str) -> (r: Option<(i32, u32, u32)>)
    ensures
        r == parsed_date_of(s@, fmt@),
        r matches Some((y, m, d)) ==> 1 <= m <= 12 && 1 <= d <= 31,
{
    chrono::NaiveDate::parse_from_str(s, fmt).ok().map(|d| (d.year(), d.month(), d.day()))
}

/// The outcome of reading a date, as the library reports it.
pub open spec fn date_result(parsed: Option<(i32, u32, u32)>) -> Result<Date, ApiError> {
    match parsed {
        Some((y, m, d)) => Ok(Date { year: y, month: m, day: d }),
        None => Err(ApiError::Validation),
    }
}

/// Turns a parsed year, month and day into a date, or a validation error.
pub fn date_from_parsed(parsed: Option<(i32, u32, u32)>) -> (r: Result<Date, ApiError>)
    ensures
        r == date_result(parsed),
{
    match parsed {
        Some((y, m, d)) => Ok(Date { year: y, month: m, day: d }),
        None => Err(ApiError::Validation),
    }
}

/// Reads a date written `YYYY-MM-DD`.
pub fn parse_iso_date(text: &str) -> (r: Result<Date, ApiError>)
    ensures
        r == date_result(parsed_date_of(text@, "%Y-%m-%d"@)),
        r matches Ok(d) ==> d.wf(),
{
    date_from_parsed(parse_date(text, "%Y-%m-%d"))
}

/// The text that a `YYYY-MM` month is completed to before it is read as a date.
pub open spec fn first_day_text(month: Seq<char>) -> Seq<char> {
    month + "-01"@
}

/// What reading the month text `month` gives: its first day, or a
/// validation error.
pub open spec fn month_of(month: Seq<char>) -> Result<Date, ApiError> {
    date_result(parsed_date_of(first_day_text(month), "%Y-%m-%d"@))
}

/// Reads a month written `YYYY-MM` as the first day of that month.
pub fn parse_projection_month(month: &str) -> (r: Result<Date, ApiError>)
    ensures
        r == month_of(month@),
        r matches Ok(d) ==> d.wf(),
{
    let mut stamped = month.to_owned();
    append(&mut stamped, "-01");
    date_from_parsed(parse_date(stamped.as_str(), "%Y-%m-%d"))
}

} // verus!
