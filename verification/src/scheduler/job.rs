use vstd::prelude::*;

use crate::dates::{datetime_max, datetime_min, now_timestamp};
use crate::providers::common_bridge::{max_timestamp, min_timestamp};
use crate::scheduler::error::ScheduleError;
use crate::scheduler::schedule::{spec_next, Schedule};

verus! {

/// The identifier of a job: a UUID as an integer.
pub type JobId = u128;

/// Whether a schedule can compute its next execution after `after` without leaving chrono's range.
pub open spec fn schedulable(s: Schedule, after: int) -> bool {
    &&& datetime_min() <= after <= datetime_max()
    &&& s matches Schedule::Interval(secs) ==> datetime_min() <= after + secs <= datetime_max()
    &&& s is Periodic ==> after < datetime_max()
}

/// Whether `schedule` can compute its next execution after `now`, see [schedulable].
fn schedulable_at(schedule: &Schedule, now: i64) -> (res: bool)
    ensures
        res == schedulable(*schedule, now as int),
{
    proof {
        crate::dates::lemma_datetime_range();
    }
    if now < -8334601228800 || now > 8210266876799 {
        return false;
    }
    match schedule {
        Schedule::Interval(secs) => if *secs < 0 {
            now >= -8334601228800 - *secs
        } else {
            now <= 8210266876799 - *secs
        },
        Schedule::Periodic(_) => now < 8210266876799,
    }
}

/// A job: the work to run, its schedule, when it runs next (a Unix timestamp) and whether it is paused.
pub struct Job<F> {
    function: F,
    schedule: Schedule,
    next_run_at: i64,
    is_paused: bool,
}

impl<F> Job<F> {
    pub closed spec fn spec_function(&self) -> F {
        self.function
    }

    pub closed spec fn spec_schedule(&self) -> Schedule {
        self.schedule
    }

    pub closed spec fn spec_next_run(&self) -> i64 {
        self.next_run_at
    }

    pub closed spec fn spec_paused(&self) -> bool {
        self.is_paused
    }

    #[verifier::type_invariant]
    closed spec fn next_run_in_range(&self) -> bool {
        datetime_min() <= self.next_run_at <= datetime_max()
    }

    /// The next run lies in chrono's range of dates.
    pub fn next_run_in_chrono_range(&self)
        ensures
            datetime_min() <= self.spec_next_run() <= datetime_max(),
    {
        proof {
            use_type_invariant(self);
        }
    }

    /// A job running `function` on `schedule`, first after `now`; out of range when the schedule has no
    /// next execution.
    pub fn new_at(schedule: Schedule, function: F, now: i64) -> (res: Result<Job<F>, ScheduleError>)
        requires
            schedulable(schedule, now as int),
        ensures
            match spec_next(schedule, now as int) {
                Some(t) => res matches Ok(job) && job.spec_next_run() == t && job.spec_schedule() == schedule
                    && job.spec_function() == function && !job.spec_paused(),
                None => res matches Err(ScheduleError::OutOfRange),
            },
    {
        match schedule.next(now) {
            Some(next_run_at) => Ok(Job { function, schedule, next_run_at, is_paused: false }),
            None => Err(ScheduleError::OutOfRange),
        }
    }

    /// A job running `function` on `schedule`, first after the current time. The clock is read, so the
    /// first run is stated as the schedule's next execution after some time. A schedule whose next
    /// execution would leave chrono's range is out of range.
    pub fn new(schedule: Schedule, function: F) -> (res: Result<Job<F>, ScheduleError>)
        ensures
            res matches Ok(job) ==> job.spec_schedule() == schedule && job.spec_function() == function
                && !job.spec_paused() && exists|now: int| #[trigger] spec_next(schedule, now) == Some(
                job.spec_next_run() as int,
            ),
            res is Err ==> res == Err::<Job<F>, ScheduleError>(ScheduleError::OutOfRange),
    {
        let now = now_timestamp();
        if !schedulable_at(&schedule, now) {
            return Err(ScheduleError::OutOfRange);
        }
        let res = Job::new_at(schedule, function, now);
        proof {
            if res is Ok {
                assert(spec_next(schedule, now as int) == Some(res.unwrap().spec_next_run() as int));
            }
        }
        res
    }

    /// When this job runs next.
    pub fn next_run(&self) -> (res: i64)
        ensures
            res == self.spec_next_run(),
    {
        self.next_run_at
    }

    /// Whether this job is pending at `now`: not paused, and past its next run.
    pub fn is_pending(&self, now: i64) -> (res: bool)
        ensures
            res == (!self.spec_paused() && now > self.spec_next_run()),
    {
        !self.is_paused && now > self.next_run_at
    }

    /// Whether this job is paused.
    pub fn is_paused(&self) -> (res: bool)
        ensures
            res == self.spec_paused(),
    {
        self.is_paused
    }

    pub fn set_paused(&mut self, paused: bool)
        ensures
            final(self).spec_paused() == paused,
            final(self).spec_next_run() == old(self).spec_next_run(),
            final(self).spec_schedule() == old(self).spec_schedule(),
            final(self).spec_function() == old(self).spec_function(),
    {
        proof {
            use_type_invariant(&*self);
        }
        self.is_paused = paused;
    }

    /// The work this job runs.
    pub fn function(&self) -> (res: &F)
        ensures
            *res == self.spec_function(),
    {
        &self.function
    }

    /// After a run at time `now`: the next run is the schedule's next execution after `now`; out of
    /// range (and nothing changes) when there is none.
    pub fn reschedule_at(&mut self, now: i64) -> (res: Result<(), ScheduleError>)
        requires
            schedulable(old(self).spec_schedule(), now as int),
        ensures
            match spec_next(old(self).spec_schedule(), now as int) {
                Some(t) => res is Ok && final(self).spec_next_run() == t,
                None => res == Err::<(), ScheduleError>(ScheduleError::OutOfRange) && final(self).spec_next_run()
                    == old(self).spec_next_run(),
            },
            final(self).spec_schedule() == old(self).spec_schedule(),
            final(self).spec_paused() == old(self).spec_paused(),
            final(self).spec_function() == old(self).spec_function(),
    {
        proof {
            use_type_invariant(&*self);
        }
        match self.schedule.next(now) {
            Some(t) => {
                self.next_run_at = t;
                Ok(())
            },
            None => Err(ScheduleError::OutOfRange),
        }
    }

    /// Move the next run to the schedule's next execution after the current time, as after a run. The
    /// clock is read, so the new time is stated as the schedule's next execution after some time. A
    /// schedule whose next execution would leave chrono's range is out of range, and the job is left as
    /// it was.
    pub fn reschedule(&mut self) -> (res: Result<(), ScheduleError>)
        ensures
            res is Ok ==> exists|now: int| #[trigger] spec_next(old(self).spec_schedule(), now) == Some(
                final(self).spec_next_run() as int,
            ),
            res is Err ==> res == Err::<(), ScheduleError>(ScheduleError::OutOfRange) && final(self).spec_next_run()
                == old(self).spec_next_run(),
            final(self).spec_schedule() == old(self).spec_schedule(),
            final(self).spec_paused() == old(self).spec_paused(),
            final(self).spec_function() == old(self).spec_function(),
    {
        let now = now_timestamp();
        if !schedulable_at(&self.schedule, now) {
            return Err(ScheduleError::OutOfRange);
        }
        let res = self.reschedule_at(now);
        proof {
            if res is Ok {
                assert(spec_next(old(self).spec_schedule(), now as int) == Some(self.spec_next_run() as int));
            }
        }
        res
    }
}

} // verus!
