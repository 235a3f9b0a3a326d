use vstd::prelude::*;

verus! {

/// An error of the scheduler. Errors of other crates are carried as their messages.
#[derive(Clone, Debug, PartialEq, Eq)]
pub enum ScheduleError {
    ParseError(String),
    MiscError(String),
    OutOfRange,
    StopFailure,
    JobAlreadyBusy(u128),
}

} // verus!
