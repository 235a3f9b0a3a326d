use vstd::prelude::*;

use crate::dates::{datetime_max, datetime_min};
use crate::scheduler::error::ScheduleError;

verus! {

/// When a job runs: periodically, by a CRON expression (with seconds), or once after an interval.
#[derive(Clone, Debug, PartialEq, Eq)]
pub enum Schedule {
    /// A periodic execution, by a CRON expression.
    Periodic(String),
    /// Execute once, this many seconds in the future.
    Interval(i64),
}

/// The message of the error of the `cron` crate for an expression it does not accept, `None` for one it
/// accepts.
pub uninterp spec fn cron_parse_error(expression: Seq<char>) -> Option<Seq<char>>;

/// The first time (Unix timestamp, whole seconds) after `after` that a CRON expression gives, by the
/// `cron` crate in UTC; `None` for an expression it does not accept, or when there is none.
pub uninterp spec fn cron_next(expression: Seq<char>, after: int) -> Option<int>;

/// Parse a CRON expression with `cron::Schedule::from_str`, keeping only the error message.
/// Claimed: the result is `cron_parse_error` of the expression.
#[verifier::external_body]
fn cron_check(expression: &str) -> (res: Option<String>)
    ensures
        match res {
            Some(m) => cron_parse_error(expression@) == Some(m@),
            None => cron_parse_error(expression@) is None,
        },
{
    match expression.parse::<cron::Schedule>() {
        Ok(_) => None,
        Err(e) => Some(e.to_string()),
    }
}

/// The next time of a CRON expression after `after`, through `cron::Schedule::from_str`,
/// `DateTime::from_timestamp`, `Schedule::after` and `DateTime::timestamp`. `Schedule::after` starts one
/// second after `after`, which chrono cannot hold (and panics on) when `after` is its last second.
/// Claimed: the result is `cron_next` of the arguments, and as a time of chrono's `DateTime<Utc>` it lies
/// in its range.
#[verifier::external_body]
fn cron_next_after(expression: &str, after: i64) -> (res: Option<i64>)
    requires
        datetime_min() <= after < datetime_max(),
    ensures
        match res {
            Some(t) => cron_next(expression@, after as int) == Some(t as int) && datetime_min() <= t <= datetime_max(),
            None => cron_next(expression@, after as int) is None,
        },
{
    let schedule = match expression.parse::<cron::Schedule>() {
        Ok(s) => s,
        Err(_) => return None,
    };
    let start = match chrono::DateTime::from_timestamp(after, 0) {
        Some(d) => d,
        None => return None,
    };
    schedule.after(&start).next().map(|d| d.timestamp())
}

/// The longest interval, in seconds, that chrono's `TimeDelta` holds.
pub open spec fn max_interval() -> int {
    9223372036854775
}

/// The time of the next execution of a schedule after `after`.
pub open spec fn spec_next(s: Schedule, after: int) -> Option<int> {
    match s {
        Schedule::Periodic(e) => cron_next(e@, after),
        Schedule::Interval(secs) => Some(after + secs),
    }
}

impl Schedule {
    /// A periodic schedule by a CRON expression (with seconds); an expression the `cron` crate does not
    /// accept is an error with its message.
    pub fn try_from_str(value: &str) -> (res: Result<Schedule, ScheduleError>)
        ensures
            match cron_parse_error(value@) {
                Some(m) => res matches Err(ScheduleError::ParseError(e)) && e@ == m,
                None => res matches Ok(Schedule::Periodic(e)) && e@ == value@,
            },
    {
        match cron_check(value) {
            Some(m) => Err(ScheduleError::ParseError(m)),
            None => Ok(Schedule::Periodic(String::from_str(value))),
        }
    }

    /// A single execution after `seconds`; out of range when chrono cannot hold the interval.
    pub fn from_seconds(seconds: u64) -> (res: Result<Schedule, ScheduleError>)
        ensures
            seconds <= max_interval() ==> res == Ok::<Schedule, ScheduleError>(Schedule::Interval(seconds as i64)),
            seconds > max_interval() ==> res == Err::<Schedule, ScheduleError>(ScheduleError::OutOfRange),
    {
        if seconds > 9223372036854775 {
            Err(ScheduleError::OutOfRange)
        } else {
            Ok(Schedule::Interval(seconds as i64))
        }
    }

    /// Determine when the next execution of this schedule should take place after `after`; an interval
    /// counts from `after`. A periodic schedule looks from the second after `after` on, so `after` must
    /// not be chrono's last second.
    pub fn next(&self, after: i64) -> (res: Option<i64>)
        requires
            datetime_min() <= after <= datetime_max(),
            *self matches Schedule::Interval(secs) ==> datetime_min() <= after + secs <= datetime_max(),
            *self is Periodic ==> after < datetime_max(),
        ensures
            match res {
                Some(t) => spec_next(*self, after as int) == Some(t as int) && datetime_min() <= t <= datetime_max(),
                None => spec_next(*self, after as int) is None,
            },
    {
        proof {
            crate::dates::lemma_datetime_range();
        }
        match self {
            Schedule::Periodic(e) => cron_next_after(e.as_str(), after),
            Schedule::Interval(secs) => Some(after + *secs),
        }
    }
}

} // verus!
