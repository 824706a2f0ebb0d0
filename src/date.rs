use chrono::Datelike;
use vstd::prelude::*;

verus! {

/// Smallest year that a calendar date may have.
pub const MIN_YEAR: i32 = -262143;

/// Largest year that a calendar date may have.
pub const MAX_YEAR: i32 = 262142;

pub open spec fn is_leap_year(y: int) -> bool {
    (y % 4 == 0 && y % 100 != 0) || y % 400 == 0
}

pub open spec fn days_in_month(y: int, m: int) -> int {
    if m == 2 {
        if is_leap_year(y) { 29 } else { 28 }
    } else if m == 4 || m == 6 || m == 9 || m == 11 {
        30
    } else {
        31
    }
}

/// `(y, m, d)` names a day of the proleptic Gregorian calendar in the supported year range.
pub open spec fn valid_ymd(y: int, m: int, d: int) -> bool {
    MIN_YEAR <= y <= MAX_YEAR && 1 <= m <= 12 && 1 <= d <= days_in_month(y, m)
}

/// A calendar date without a time of day.
#[derive(Clone, Copy, Debug, PartialEq, Eq, Structural)]
pub struct Date {
    pub year: i32,
    pub month: u32,
    pub day: u32,
}

impl Date {
    pub open spec fn wf(&self) -> bool {
        valid_ymd(self.year as int, self.month as int, self.day as int)
    }

    /// Calendar order: by year, then month, then day.
    pub open spec fn spec_before(&self, other: Date) -> bool {
        self.year < other.year || (self.year == other.year && (self.month < other.month || (
        self.month == other.month && self.day < other.day)))
    }

    /// The date of the given year, month and day, if that day exists.
    pub fn from_ymd(year: i32, month: u32, day: u32) -> (r: Option<Date>)
        ensures
            r is Some <==> valid_ymd(year as int, month as int, day as int),
            r is Some ==> r->0 == (Date { year, month, day }),
    {
        match chrono_from_ymd(year, month, day) {
            Some((y, m, d)) => Some(Date { year: y, month: m, day: d }),
            None => None,
        }
    }

    /// Whether `self` falls strictly before `other` in calendar order.
    pub fn before(&self, other: &Date) -> (r: bool)
        ensures
            r == self.spec_before(*other),
    {
        if self.year != other.year {
            self.year < other.year
        } else if self.month != other.month {
            self.month < other.month
        } else {
            self.day < other.day
        }
    }
}

/// Relies on chrono's `NaiveDate::from_ymd_opt`: it gives a date exactly for the existing
/// days of the years `MIN_YEAR ..= MAX_YEAR`, and that date has the fields it was given.
#[verifier::external_body]
fn chrono_from_ymd(year: i32, month: u32, day: u32) -> (r: Option<(i32, u32, u32)>)
    ensures
        r is Some <==> valid_ymd(year as int, month as int, day as int),
        r is Some ==> r == Some((year, month, day)),
{
    chrono::NaiveDate::from_ymd_opt(year, month, day).map(|d| (d.year(), d.month(), d.day()))
}

/// What chrono's `NaiveDate::parse_from_str(s, "%d/%m/%Y")` gives for `s`, as year, month, day.
pub uninterp spec fn dmy_parsed(s: Seq<char>) -> Option<(int, int, int)>;

/// Relies on chrono's `NaiveDate::parse_from_str` with the pattern `%d/%m/%Y`: the outcome
/// depends on the text alone, and a parsed value is a valid `NaiveDate`.
#[verifier::external_body]
fn chrono_parse_dmy(s: &str) -> (r: Option<(i32, u32, u32)>)
    ensures
        r is Some <==> dmy_parsed(s@) is Some,
        r matches Some((y, m, d)) ==> dmy_parsed(s@) == Some((y as int, m as int, d as int)),
        r matches Some((y, m, d)) ==> valid_ymd(y as int, m as int, d as int),
{
    chrono::NaiveDate::parse_from_str(s, "%d/%m/%Y").ok().map(|d| (d.year(), d.month(), d.day()))
}

/// The date written in `s` as `DD/MM/YYYY`, if it is one.
pub open spec fn date_of(s: Seq<char>) -> Option<Date> {
    match dmy_parsed(s) {
        Some((y, m, d)) => Some(Date { year: y as i32, month: m as u32, day: d as u32 }),
        None => None,
    }
}

/// Reads a `DD/MM/YYYY` date; any other text gives `None`.
pub fn parse_date(s: &str) -> (r: Option<Date>)
    ensures
        r == date_of(s@),
        r is Some ==> r->0.wf(),
{
    match chrono_parse_dmy(s) {
        Some((y, m, d)) => Some(Date { year: y, month: m, day: d }),
        None => None,
    }
}

} // verus!
