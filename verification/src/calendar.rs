//! UTC calendar time and Unix time, through chrono.
use vstd::prelude::*;
use chrono::{Datelike, Timelike};

verus! {

/// The earliest year chrono's dates hold.
pub open spec fn chrono_min_year() -> int {
    -262143
}

/// The latest year chrono's dates hold.
pub open spec fn chrono_max_year() -> int {
    262142
}

/// Leap years of the proleptic Gregorian calendar.
pub open spec fn is_leap_year(y: int) -> bool {
    (y % 4 == 0 && y % 100 != 0) || y % 400 == 0
}

pub open spec fn days_in_month(y: int, m: int) -> int {
    if m == 2 {
        if is_leap_year(y) {
            29
        } else {
            28
        }
    } else if m == 4 || m == 6 || m == 9 || m == 11 {
        30
    } else {
        31
    }
}

/// Leap years from year 1 to year `p` (counted negatively below year 1).
pub open spec fn leap_years_through(p: int) -> int {
    p / 4 - p / 100 + p / 400
}

/// Days from 1970-01-01 to January 1 of year `y`.
pub open spec fn days_before_year(y: int) -> int {
    365 * (y - 1970) + leap_years_through(y - 1) - leap_years_through(1969)
}

/// Days from January 1 to the first of month `m` of year `y`.
pub open spec fn days_before_month(y: int, m: int) -> int {
    let common: int = if m == 1 {
        0
    } else if m == 2 {
        31
    } else if m == 3 {
        59
    } else if m == 4 {
        90
    } else if m == 5 {
        120
    } else if m == 6 {
        151
    } else if m == 7 {
        181
    } else if m == 8 {
        212
    } else if m == 9 {
        243
    } else if m == 10 {
        273
    } else if m == 11 {
        304
    } else {
        334
    };
    if m > 2 && is_leap_year(y) {
        common + 1
    } else {
        common
    }
}

/// A calendar date and time of day that exists, within chrono's year range.
pub open spec fn valid_civil(y: int, mo: int, d: int, h: int, mi: int, s: int) -> bool {
    &&& chrono_min_year() <= y <= chrono_max_year()
    &&& 1 <= mo <= 12
    &&& 1 <= d <= days_in_month(y, mo)
    &&& 0 <= h < 24
    &&& 0 <= mi < 60
    &&& 0 <= s < 60
}

/// Seconds from 1970-01-01 00:00:00 UTC to the given UTC date and time.
pub open spec fn civil_seconds(y: int, mo: int, d: int, h: int, mi: int, s: int) -> int {
    (days_before_year(y) + days_before_month(y, mo) + d - 1) * 86400 + h * 3600 + mi * 60 + s
}

/// A UTC date and time as (year, month, day, hour, minute, second).
pub type Civil = (i32, u32, u32, u32, u32, u32);

pub open spec fn valid_civil_t(t: Civil) -> bool {
    valid_civil(t.0 as int, t.1 as int, t.2 as int, t.3 as int, t.4 as int, t.5 as int)
}

pub open spec fn civil_seconds_t(t: Civil) -> int {
    civil_seconds(t.0 as int, t.1 as int, t.2 as int, t.3 as int, t.4 as int, t.5 as int)
}

/// The Unix times chrono turns into dates: the first second of its first year
/// to the last second of its last year.
pub open spec fn in_chrono_range(ts: int) -> bool {
    civil_seconds(chrono_min_year(), 1, 1, 0, 0, 0) <= ts <= civil_seconds(
        chrono_max_year(),
        12,
        31,
        23,
        59,
        59,
    )
}

/// One more leap year is counted through `y` than through `y - 1` exactly
/// when `y` is a leap year.
proof fn lemma_leap_step(y: int)
    ensures
        leap_years_through(y) - leap_years_through(y - 1) == if is_leap_year(y) {
            1int
        } else {
            0
        },
{
}

/// Year `y` has 365 days, or 366 in a leap year.
proof fn lemma_days_before_year_step(y: int)
    ensures
        days_before_year(y + 1) == days_before_year(y) + 365 + if is_leap_year(y) {
            1int
        } else {
            0
        },
{
    lemma_leap_step(y);
}

/// Later years begin later: at least 365 days a year.
proof fn lemma_days_before_year_grows(a: int, b: int)
    requires
        a <= b,
    ensures
        days_before_year(a) + 365 * (b - a) <= days_before_year(b),
    decreases b - a,
{
    if a < b {
        lemma_days_before_year_grows(a, b - 1);
        lemma_days_before_year_step(b - 1);
    }
}

/// The Unix time of a date and time that exists lies in its year: at or after
/// the first second of year `y`, and before the first second of year `y + 1`.
pub proof fn lemma_civil_in_year(y: int, mo: int, d: int, h: int, mi: int, s: int)
    requires
        valid_civil(y, mo, d, h, mi, s),
    ensures
        days_before_year(y) * 86400 <= civil_seconds(y, mo, d, h, mi, s) < days_before_year(y + 1)
            * 86400,
{
    lemma_days_before_year_step(y);
    assert(days_before_month(y, mo) + d - 1 <= 364 + if is_leap_year(y) {
        1int
    } else {
        0
    });
    assert(h * 3600 + mi * 60 + s < 86400) by (nonlinear_arith)
        requires
            0 <= h < 24,
            0 <= mi < 60,
            0 <= s < 60,
    ;
}

/// Of the dates and times that exist, the ones from the first second of year
/// `lo` to the last second of year `hi` are exactly those in the years
/// `lo` to `hi`.
pub proof fn lemma_years_span(y: int, mo: int, d: int, h: int, mi: int, s: int, lo: int, hi: int)
    requires
        valid_civil(y, mo, d, h, mi, s),
        lo <= hi,
    ensures
        (lo <= y <= hi) <==> (days_before_year(lo) * 86400 <= civil_seconds(y, mo, d, h, mi, s)
            < days_before_year(hi + 1) * 86400),
{
    lemma_civil_in_year(y, mo, d, h, mi, s);
    if y < lo {
        lemma_days_before_year_grows(y + 1, lo);
    }
    if y > hi {
        lemma_days_before_year_grows(hi + 1, y);
    }
    if lo <= y {
        lemma_days_before_year_grows(lo, y);
    }
    if y <= hi {
        lemma_days_before_year_grows(y + 1, hi + 1);
    }
}

/// The first seconds of the years 1980, 2000, 2100 and 2107.
pub proof fn lemma_year_starts()
    ensures
        days_before_year(1980) * 86400 == 315_532_800,
        days_before_year(2000) * 86400 == 946_684_800,
        days_before_year(2100) * 86400 == 4_102_444_800,
        days_before_year(2107) * 86400 == 4_323_283_200,
{
    assert(days_before_year(1980) == 3652);
    assert(days_before_year(2000) == 10957);
    assert(days_before_year(2100) == 47482);
    assert(days_before_year(2107) == 50038);
}

/// The UTC date and time chrono gives Unix time `ts`.
pub uninterp spec fn chrono_civil_from_unix(ts: i64) -> Option<(i32, u32, u32, u32, u32, u32)>;

/// chrono's `DateTime::<Utc>::from_timestamp(ts, 0)`, read back with
/// `Datelike::{year, month, day}` and `Timelike::{hour, minute, second}`.
/// Claimed: the result is `chrono_civil_from_unix(ts)`; it is `Some` exactly
/// for the times in chrono's date range, and it is then a date and time that
/// exists and lies `ts` seconds after the epoch.
#[verifier::external_body]
pub(crate) fn civil_from_unix(ts: i64) -> (r: Option<(i32, u32, u32, u32, u32, u32)>)
    ensures
        r == chrono_civil_from_unix(ts),
        r is Some <==> in_chrono_range(ts as int),
        r matches Some(t) ==> valid_civil_t(t) && civil_seconds_t(t) == ts,
{
    match chrono::DateTime::from_timestamp(ts, 0) {
        Some(dt) => Some((dt.year(), dt.month(), dt.day(), dt.hour(), dt.minute(), dt.second())),
        None => None,
    }
}

/// chrono's `NaiveDate::from_ymd_opt(y, mo, d)`, then `and_hms_opt(h, mi, s)`,
/// then `and_utc().timestamp()`. Claimed: `Some` exactly for a date and time
/// that exists in chrono's year range, holding its seconds since the epoch.
#[verifier::external_body]
pub(crate) fn unix_from_civil(y: i32, mo: u32, d: u32, h: u32, mi: u32, s: u32) -> (r: Option<i64>)
    ensures
        r == if valid_civil(y as int, mo as int, d as int, h as int, mi as int, s as int) {
            Some(civil_seconds(y as int, mo as int, d as int, h as int, mi as int, s as int) as i64)
        } else {
            None::<i64>
        },
{
    match chrono::NaiveDate::from_ymd_opt(y, mo, d) {
        Some(date) => match date.and_hms_opt(h, mi, s) {
            Some(dt) => Some(dt.and_utc().timestamp()),
            None => None,
        },
        None => None,
    }
}

} // verus!
