use vstd::prelude::*;

use chrono::Datelike;

use crate::picnic::models::CalendarDate;
use crate::providers::common_bridge::{max_timestamp, min_timestamp};

verus! {

// ** The proleptic Gregorian calendar **

/// Whether `y` is a leap year.
pub open spec fn is_leap(y: int) -> bool {
    y % 4 == 0 && (y % 100 != 0 || y % 400 == 0)
}

/// The number of days of month `m` of year `y`.
pub open spec fn days_in_month(y: int, m: int) -> int {
    if m == 2 {
        if is_leap(y) {
            29
        } else {
            28
        }
    } else if m == 4 || m == 6 || m == 9 || m == 11 {
        30
    } else {
        31
    }
}

/// The first year of the calendar dates that chrono represents.
pub open spec fn min_year() -> int {
    -262143
}

/// The last year of the calendar dates that chrono represents.
pub open spec fn max_year() -> int {
    262142
}

/// Whether a date exists in the calendar and in chrono's range.
pub open spec fn is_valid_date(d: CalendarDate) -> bool {
    &&& min_year() <= d.year <= max_year()
    &&& 1 <= d.month <= 12
    &&& 1 <= d.day <= days_in_month(d.year as int, d.month as int)
}

/// The number of days from 1970-01-01 to the date `y-m-d` (negative before it).
#[verifier::opaque]
pub open spec fn days_from_civil(y: int, m: int, d: int) -> int {
    let y1 = if m <= 2 {
        y - 1
    } else {
        y
    };
    let era = y1 / 400;
    let yoe = y1 - era * 400;
    let mp = if m > 2 {
        m - 3
    } else {
        m + 9
    };
    let doy = (153 * mp + 2) / 5 + d - 1;
    let doe = yoe * 365 + yoe / 4 - yoe / 100 + doy;
    era * 146097 + doe - 719468
}

/// The day number of a date, see [days_from_civil].
pub open spec fn day_number(d: CalendarDate) -> int {
    days_from_civil(d.year as int, d.month as int, d.day as int)
}

/// Whether a day number falls in chrono's range of dates.
pub open spec fn day_in_range(n: int) -> bool {
    days_from_civil(min_year(), 1, 1) <= n <= days_from_civil(max_year(), 12, 31)
}

/// The first Unix timestamp that chrono's `DateTime<Utc>` represents: the first second of its first day.
pub open spec fn datetime_min() -> int {
    days_from_civil(min_year(), 1, 1) * 86400
}

/// The last Unix timestamp (in whole seconds) that chrono's `DateTime<Utc>` represents.
pub open spec fn datetime_max() -> int {
    days_from_civil(max_year(), 12, 31) * 86400 + 86399
}

/// The timestamps of chrono's `DateTime<Utc>` run from 1970 minus about 264 thousand years to 1970 plus
/// about 260 thousand years.
pub proof fn lemma_datetime_range()
    ensures
        datetime_min() == -8334601228800,
        datetime_max() == 8210266876799,
{
    reveal(days_from_civil);
}

/// The day of the week of day number `n`: 0 for Monday up to 6 for Sunday (1970-01-01 was a Thursday).
pub open spec fn weekday_of(n: int) -> int {
    (n + 3) % 7
}

/// The day number of the Monday of ISO week 1 of year `y`: the week that holds January 4th.
pub open spec fn week1_monday(y: int) -> int {
    let j4 = days_from_civil(y, 1, 4);
    j4 - weekday_of(j4)
}

/// The number of ISO weeks of year `y` (52 or 53).
pub open spec fn iso_weeks_in_year(y: int) -> int {
    (week1_monday(y + 1) - week1_monday(y)) / 7
}

/// The ISO week (year, week number) that holds day number `n` of calendar year `y`.
pub open spec fn iso_week_of_day(y: int, n: int) -> (int, int) {
    if n >= week1_monday(y + 1) {
        (y + 1, 1)
    } else if n < week1_monday(y) {
        (y - 1, (n - week1_monday(y - 1)) / 7 + 1)
    } else {
        (y, (n - week1_monday(y)) / 7 + 1)
    }
}

/// The day number of the Monday of ISO week `week` of ISO year `year`.
pub open spec fn iso_week_monday(year: int, week: int) -> int {
    week1_monday(year) + 7 * (week - 1)
}

/// Whether chrono has the Monday of ISO week `week` of ISO year `year`: the week exists in that year and
/// its Monday lies in chrono's range.
pub open spec fn has_iso_week_monday(year: int, week: int) -> bool {
    1 <= week <= iso_weeks_in_year(year) && day_in_range(iso_week_monday(year, week))
}

// ** chrono **

/// The Unix timestamp of `date` at `hour:minute:second` UTC, through chrono's `NaiveDate::from_ymd_opt`,
/// `NaiveDate::and_hms_opt`, `NaiveDateTime::and_utc` and `DateTime::timestamp`. The contract claims that
/// chrono accepts exactly the dates of the proleptic Gregorian calendar in its range and the times of a
/// day without leap seconds, and counts the seconds since 1970-01-01 00:00:00 UTC.
#[verifier::external_body]
pub(crate) fn date_time_timestamp(date: CalendarDate, hour: u32, minute: u32, second: u32) -> (res: Option<i64>)
    ensures
        res == (if is_valid_date(date) && hour < 24 && minute < 60 && second < 60 {
            Some((day_number(date) * 86400 + hour * 3600 + minute * 60 + second) as i64)
        } else {
            None
        }),
{
    match chrono::NaiveDate::from_ymd_opt(date.year, date.month, date.day) {
        Some(d) => match d.and_hms_opt(hour, minute, second) {
            Some(dt) => Some(dt.and_utc().timestamp()),
            None => None,
        },
        None => None,
    }
}

/// The ISO week (year, week number) of `date`, through chrono's `NaiveDate::from_ymd_opt` and
/// `Datelike::iso_week`. The contract claims that chrono numbers weeks as ISO 8601 does: Monday-based
/// weeks, week 1 holding January 4th.
#[verifier::external_body]
pub(crate) fn iso_week(date: CalendarDate) -> (res: Option<(i32, u32)>)
    ensures
        res == (if is_valid_date(date) {
            let w = iso_week_of_day(date.year as int, day_number(date));
            Some((w.0 as i32, w.1 as u32))
        } else {
            None
        }),
{
    match chrono::NaiveDate::from_ymd_opt(date.year, date.month, date.day) {
        Some(d) => {
            let w = d.iso_week();
            Some((w.year(), w.week()))
        },
        None => None,
    }
}

/// The date of the Monday of ISO week `week` of ISO year `year`, through chrono's
/// `NaiveDate::from_isoywd_opt`. The contract claims that chrono gives it exactly when the week exists in
/// that year and the Monday is in its range.
#[verifier::external_body]
pub(crate) fn iso_week_monday_date(year: i32, week: u32) -> (res: Option<CalendarDate>)
    requires
        min_year() <= year <= max_year(),
    ensures
        res is Some <==> has_iso_week_monday(year as int, week as int),
        res matches Some(d) ==> is_valid_date(d) && day_number(d) == iso_week_monday(year as int, week as int),
{
    match chrono::NaiveDate::from_isoywd_opt(year, week, chrono::Weekday::Mon) {
        Some(d) => Some(CalendarDate { year: d.year(), month: d.month(), day: d.day() }),
        None => None,
    }
}

/// The current Unix timestamp, through chrono's `Utc::now` and `DateTime::timestamp`. The contract claims
/// only that it lies in the range of chrono's `DateTime<Utc>` (and so in the range this library handles).
#[verifier::external_body]
pub(crate) fn now_timestamp() -> (res: i64)
    ensures
        min_timestamp() <= res <= max_timestamp(),
        datetime_min() <= res <= datetime_max(),
{
    chrono::Utc::now().timestamp()
}

} // verus!
