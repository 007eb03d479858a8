//! Instants as milliseconds since the Unix epoch, calendar days (UTC) as day
//! numbers since 1970-01-01, and the day windows of calendar months.
use crate::error::BookingError;
use vstd::prelude::*;

verus! {

/// Milliseconds in one calendar day.
pub const MILLIS_PER_DAY: i64 = 86_400_000;

/// Day number of 1970-01-01 counted from 0001-01-01 of the proleptic
/// Gregorian calendar.
pub const EPOCH_DAY_FROM_YEAR_ONE: i64 = 719_162;

/// The instant (milliseconds since the epoch, truncated) that the RFC 3339
/// text `s` denotes, or `None` where `s` is not RFC 3339.
pub uninterp spec fn rfc3339_millis(s: Seq<char>) -> Option<i64>;

/// Relies on bson's `DateTime::parse_rfc3339_str` (through mongodb): parses an
/// RFC 3339 timestamp to milliseconds since the epoch, and fails on any text
/// that is not one.
#[verifier::external_body]
fn parse_rfc3339(s: &str) -> (r: Option<i64>)
    ensures
        r == rfc3339_millis(s@),
{
    mongodb::bson::DateTime::parse_rfc3339_str(s).ok().map(|d| d.timestamp_millis())
}

/// Reads an RFC 3339 timestamp; unreadable text is an invalid date range.
pub fn parse_instant(s: &str) -> (r: Result<i64, BookingError>)
    ensures
        match rfc3339_millis(s@) {
            Some(ms) => r == Ok::<i64, BookingError>(ms),
            None => r == Err::<i64, BookingError>(BookingError::InvalidDateRange),
        },
{
    match parse_rfc3339(s) {
        Some(ms) => Ok(ms),
        None => Err(BookingError::InvalidDateRange),
    }
}

/// The UTC calendar day that contains the instant `ms`.
pub open spec fn day_of(ms: int) -> int {
    ms / (MILLIS_PER_DAY as int)
}

/// Division rounding towards negative infinity, for a positive divisor.
fn floor_div(a: i64, b: i64) -> (r: i64)
    requires
        b > 0,
    ensures
        r == a as int / b as int,
{
    if a >= 0 {
        a / b
    } else {
        let n = -(a + 1);
        let q = n / b;
        let m = n % b;
        proof {
            vstd::arithmetic::div_mod::lemma_fundamental_div_mod(n as int, b as int);
            assert(a as int == (-(q as int) - 1) * (b as int) + (b as int - m as int - 1))
                by (nonlinear_arith)
                requires
                    n as int == (b as int) * (q as int) + m as int,
                    n == -(a + 1),
            ;
            vstd::arithmetic::div_mod::lemma_fundamental_div_mod_converse(
                a as int,
                b as int,
                -(q as int) - 1,
                b as int - m as int - 1,
            );
        }
        -q - 1
    }
}

/// The UTC calendar day of an instant.
pub fn day_of_millis(ms: i64) -> (r: i64)
    ensures
        r == day_of(ms as int),
{
    floor_div(ms, MILLIS_PER_DAY)
}

/// Number of calendar days in [day of `start`, day of `end`): the days that a
/// stay from `start` to `end` occupies, the day of departure excluded.
pub open spec fn stay_length(start: int, end: int) -> int {
    if day_of(end) > day_of(start) {
        day_of(end) - day_of(start)
    } else {
        0
    }
}

/// Number of days a stay between two RFC 3339 timestamps occupies; unreadable
/// timestamps, or a start after the end, are an invalid date range.
pub fn count_stay_days(start: &str, end: &str) -> (r: Result<u64, BookingError>)
    ensures
        match (rfc3339_millis(start@), rfc3339_millis(end@)) {
            (Some(s), Some(e)) => if s <= e {
                r == Ok::<u64, BookingError>(stay_length(s as int, e as int) as u64)
            } else {
                r == Err::<u64, BookingError>(BookingError::InvalidDateRange)
            },
            _ => r == Err::<u64, BookingError>(BookingError::InvalidDateRange),
        },
{
    let s = parse_instant(start)?;
    let e = parse_instant(end)?;
    if s > e {
        return Err(BookingError::InvalidDateRange);
    }
    let sd = day_of_millis(s);
    let ed = day_of_millis(e);
    proof {
        vstd::arithmetic::div_mod::lemma_div_is_ordered(s as int, e as int, MILLIS_PER_DAY as int);
    }
    Ok((ed - sd) as u64)
}

/// Whether `y` is a leap year of the Gregorian calendar.
pub open spec fn is_leap_year(y: int) -> bool {
    (y % 4 == 0 && y % 100 != 0) || y % 400 == 0
}

/// Days from 0001-01-01 to January 1st of year `y`: 365 per year, plus one per
/// leap year before `y`.
pub open spec fn days_before_year(y: int) -> int {
    365 * (y - 1) + (y - 1) / 4 - (y - 1) / 100 + (y - 1) / 400
}

/// Days from January 1st to the first of month `m` (1 to 12) of year `y`.
pub open spec fn days_before_month(y: int, m: int) -> int {
    let common: int = if m == 1 {
        0
    } else if m == 2 {
        31
    } else if m == 3 {
        59
    } else if m == 4 {
        90
    } else if m == 5 {
        120
    } else if m == 6 {
        151
    } else if m == 7 {
        181
    } else if m == 8 {
        212
    } else if m == 9 {
        243
    } else if m == 10 {
        273
    } else if m == 11 {
        304
    } else {
        334
    };
    if m > 2 && is_leap_year(y) {
        common + 1
    } else {
        common
    }
}

/// Day number (since 1970-01-01) of the first day of month `m` of year `y`.
pub open spec fn month_start(y: int, m: int) -> int {
    days_before_year(y) + days_before_month(y, m) - EPOCH_DAY_FROM_YEAR_ONE
}

/// Day number of the first day after month `m` of year `y`.
pub open spec fn month_end(y: int, m: int) -> int {
    if m == 12 {
        month_start(y + 1, 1)
    } else {
        month_start(y, m + 1)
    }
}

/// Whether the instant `ms` falls in month `month` (1 to 12) of year `year`,
/// in UTC.
pub open spec fn in_month(ms: int, month: int, year: int) -> bool {
    1 <= month <= 12 && month_start(year, month) <= day_of(ms) < month_end(year, month)
}

/// Day number of the first day of month `m` of year `y`.
fn first_day_of_month(y: i64, m: i64) -> (r: i64)
    requires
        0 <= y <= u32::MAX as i64 + 1,
        1 <= m <= 12,
    ensures
        r == month_start(y as int, m as int),
{
    let p = y - 1;
    let leap = (y % 4 == 0 && y % 100 != 0) || y % 400 == 0;
    let common: i64 = if m == 1 {
        0
    } else if m == 2 {
        31
    } else if m == 3 {
        59
    } else if m == 4 {
        90
    } else if m == 5 {
        120
    } else if m == 6 {
        151
    } else if m == 7 {
        181
    } else if m == 8 {
        212
    } else if m == 9 {
        243
    } else if m == 10 {
        273
    } else if m == 11 {
        304
    } else {
        334
    };
    let extra: i64 = if m > 2 && leap {
        1
    } else {
        0
    };
    assert(365 * (p as int) <= 365 * (u32::MAX as int)) by (nonlinear_arith)
        requires
            p <= u32::MAX as int,
    ;
    assert(365 * (p as int) >= -365) by (nonlinear_arith)
        requires
            p >= -1,
    ;
    let by4 = floor_div(p, 4);
    let by100 = floor_div(p, 100);
    let by400 = floor_div(p, 400);
    proof {
        vstd::arithmetic::div_mod::lemma_div_is_ordered(p as int, u32::MAX as int, 4);
        vstd::arithmetic::div_mod::lemma_div_is_ordered(-1, p as int, 4);
        vstd::arithmetic::div_mod::lemma_div_is_ordered(p as int, u32::MAX as int, 100);
        vstd::arithmetic::div_mod::lemma_div_is_ordered(-1, p as int, 100);
        vstd::arithmetic::div_mod::lemma_div_is_ordered(p as int, u32::MAX as int, 400);
        vstd::arithmetic::div_mod::lemma_div_is_ordered(-1, p as int, 400);
    }
    365 * p + by4 - by100 + by400 + common + extra - EPOCH_DAY_FROM_YEAR_ONE
}

/// Whether the instant `ms` falls in the given calendar month and year (UTC);
/// a month outside 1 to 12 matches nothing.
pub fn ends_in_month(ms: i64, month: u32, year: u32) -> (r: bool)
    ensures
        r == in_month(ms as int, month as int, year as int),
{
    if month < 1 || month > 12 {
        return false;
    }
    let y = year as i64;
    let m = month as i64;
    let first = first_day_of_month(y, m);
    let after = if m == 12 {
        first_day_of_month(y + 1, 1)
    } else {
        first_day_of_month(y, m + 1)
    };
    let d = day_of_millis(ms);
    first <= d && d < after
}

} // verus!
