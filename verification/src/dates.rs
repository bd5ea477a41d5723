//! Calendar days as numbers: day 0 is 1970-01-01 (a Thursday), as chrono's
//! `NaiveDate::to_epoch_days` counts them. Day arithmetic is plain integer
//! arithmetic checked against chrono's date range; parsing, formatting, the day of
//! the month and month arithmetic are chrono's own.

use vstd::prelude::*;
use chrono::{Datelike, Months, NaiveDate};

verus! {

/// The day number of `NaiveDate::MIN` (1 January of year -262143).
pub const MIN_DAY: i32 = -96465293;

/// The day number of `NaiveDate::MAX` (31 December of year 262142).
pub const MAX_DAY: i32 = 95026236;

/// A day that chrono can represent.
pub open spec fn valid_day(day: int) -> bool {
    MIN_DAY <= day <= MAX_DAY
}

/// Days since the last Sunday (0 on a Sunday).
pub open spec fn weekday_from_sunday(day: int) -> int {
    (day + 4) % 7
}

/// `day + delta` where chrono can represent it, else `fallback`: what
/// `checked_add_days` / `checked_sub_days` followed by `unwrap_or(fallback)` give.
pub open spec fn shifted_or(day: int, delta: int, fallback: int) -> int {
    if valid_day(day + delta) {
        day + delta
    } else {
        fallback
    }
}

pub fn days_from_sunday(day: i32) -> (r: u32)
    ensures
        r == weekday_from_sunday(day as int),
        r < 7,
{
    let m = day % 7;
    let m = if m < 0 {
        m + 7
    } else {
        m
    };
    let r = (m + 4) % 7;
    proof {
        assert(r == (day + 4) % 7) by (nonlinear_arith)
            requires
                m == day % 7 || m == day % 7 + 7,
                0 <= m < 7,
                r == (m + 4) % 7,
        {
        }
    }
    r as u32
}

/// `day` moved forward by `days`, or `fallback` where chrono has no such date.
pub fn add_days_or(day: i32, days: u64, fallback: i32) -> (r: i32)
    requires
        valid_day(day as int),
    ensures
        r == shifted_or(day as int, days as int, fallback as int),
{
    if days <= (MAX_DAY as i64 - day as i64) as u64 {
        day + days as i32
    } else {
        fallback
    }
}

/// Whether chrono has the day `days` after `day`.
pub fn fits_forward(day: i32, days: u64) -> (r: bool)
    requires
        valid_day(day as int),
    ensures
        r == valid_day(day + days),
{
    days <= (MAX_DAY as i64 - day as i64) as u64
}

/// `day` moved back by `days`, or `fallback` where chrono has no such date.
pub fn sub_days_or(day: i32, days: u64, fallback: i32) -> (r: i32)
    requires
        valid_day(day as int),
    ensures
        r == shifted_or(day as int, -(days as int), fallback as int),
{
    if days <= (day as i64 - MIN_DAY as i64) as u64 {
        day - days as i32
    } else {
        fallback
    }
}

/// The Sunday that starts the week of `day` (the day itself where that Sunday is
/// before chrono's first date).
pub fn sunday_of_week(day: i32) -> (r: i32)
    requires
        valid_day(day as int),
    ensures
        r == shifted_or(day as int, -weekday_from_sunday(day as int), day as int),
        valid_day(r as int),
        r <= day,
{
    sub_days_or(day, days_from_sunday(day) as u64, day)
}

/// What `NaiveDate::parse_from_str(text, pattern)` yields, as a day number.
pub uninterp spec fn parsed_date(text: Seq<char>, pattern: Seq<char>) -> Option<i32>;

/// The text that `NaiveDate::format(pattern)` writes for the day numbered `day`.
pub uninterp spec fn date_text(day: int, pattern: Seq<char>) -> Seq<char>;

/// The day of the month (`Datelike::day`) of the day numbered `day`.
pub uninterp spec fn month_day(day: int) -> int;

/// What `NaiveDate::checked_add_months(Months::new(months))` yields for `day`.
pub uninterp spec fn months_later(day: int, months: int) -> Option<i32>;

/// The strftime patterns this library formats dates with; chrono writes each of
/// them for every date without error.
pub open spec fn date_pattern(pattern: Seq<char>) -> bool {
    ||| pattern == "%-d %b"@
    ||| pattern == "%b"@
    ||| pattern == "%-d/%-m"@
    ||| pattern == "%Y-%m-%d"@
}

/// `NaiveDate::parse_from_str(text, pattern)`, as a day number. The result is
/// chrono's parse, named `parsed_date`; every date chrono yields lies in its range.
#[verifier::external_body]
pub(crate) fn parse_date(text: &str, pattern: &str) -> (r: Option<i32>)
    ensures
        r == parsed_date(text@, pattern@),
        r matches Some(d) ==> valid_day(d as int),
{
    NaiveDate::parse_from_str(text, pattern).ok().map(|date| date.to_epoch_days())
}

/// `NaiveDate::from_epoch_days(day)` formatted with `pattern`. chrono has a date
/// for exactly the days in its range; the text is chrono's, named `date_text`.
#[verifier::external_body]
pub(crate) fn format_date(day: i32, pattern: &str) -> (r: Option<String>)
    requires
        date_pattern(pattern@),
    ensures
        r is Some <==> valid_day(day as int),
        r matches Some(s) ==> s@ == date_text(day as int, pattern@),
{
    NaiveDate::from_epoch_days(day).map(|date| date.format(pattern).to_string())
}

/// `Datelike::day` of `NaiveDate::from_epoch_days(day)`: a day of the month
/// between 1 and 31, named `month_day`.
#[verifier::external_body]
pub(crate) fn day_of_month(day: i32) -> (r: Option<u32>)
    ensures
        r is Some <==> valid_day(day as int),
        r matches Some(m) ==> m == month_day(day as int) && 1 <= m <= 31,
{
    NaiveDate::from_epoch_days(day).map(|date| date.day())
}

/// `NaiveDate::checked_add_months(Months::new(months))` on the day numbered `day`.
/// Adding no months gives the day back; any result is a date in chrono's range.
#[verifier::external_body]
pub(crate) fn add_months(day: i32, months: u32) -> (r: Option<i32>)
    ensures
        valid_day(day as int) ==> r == months_later(day as int, months as int),
        !valid_day(day as int) ==> r is None,
        valid_day(day as int) && months == 0 ==> r == Some(day),
        r matches Some(d) ==> valid_day(d as int),
{
    NaiveDate::from_epoch_days(day)
        .and_then(|date| date.checked_add_months(Months::new(months)))
        .map(|date| date.to_epoch_days())
}

} // verus!
