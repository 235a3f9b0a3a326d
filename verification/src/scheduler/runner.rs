use vstd::prelude::*;

use keyed_priority_queue::KeyedPriorityQueue;
use std::collections::HashMap;

use crate::dates::{datetime_max, datetime_min};
use crate::scheduler::job::{Job, JobId};
use crate::scheduler::queue::{queue_contents, queue_new, queue_peek, queue_pop, queue_push, queue_remove};

verus! {

broadcast use vstd::std_specs::hash::group_hash_axioms;

// ** Job wrappers **

/// A job as the runner keeps it: available (with the job) or busy running (the job is away), and
/// paused or not in either state.
pub enum JobWrapper<F> {
    Available { job: Job<F>, paused: bool },
    Busy { paused: bool },
}

/// Whether a wrapper is paused.
pub open spec fn wrapper_paused<F>(w: JobWrapper<F>) -> bool {
    match w {
        JobWrapper::Available { paused, .. } => paused,
        JobWrapper::Busy { paused } => paused,
    }
}

impl<F> JobWrapper<F> {
    /// An available, unpaused wrapper of `job`.
    pub fn new(job: Job<F>) -> (res: JobWrapper<F>)
        ensures
            res == (JobWrapper::Available { job, paused: false }),
    {
        JobWrapper::Available { paused: false, job }
    }

    /// Set whether the job is paused, keeping it available or busy.
    pub fn set_paused(&mut self, set_paused: bool)
        ensures
            match *old(self) {
                JobWrapper::Available { job, .. } => *final(self) == (JobWrapper::Available { job, paused: set_paused }),
                JobWrapper::Busy { .. } => *final(self) == (JobWrapper::<F>::Busy { paused: set_paused }),
            },
    {
        match self {
            JobWrapper::Available { paused, .. } => *paused = set_paused,
            JobWrapper::Busy { paused } => *paused = set_paused,
        }
    }

    /// Whether the job is paused.
    pub fn is_paused(&self) -> (res: bool)
        ensures
            res == wrapper_paused(*self),
    {
        match self {
            JobWrapper::Available { paused, .. } => *paused,
            JobWrapper::Busy { paused } => *paused,
        }
    }

    /// Whether the job is pending at `now`: available, not paused, and past its next run.
    pub fn is_pending(&self, now: i64) -> (res: bool)
        ensures
            res == (match *self {
                JobWrapper::Available { job, paused } => !paused && !job.spec_paused() && now > job.spec_next_run(),
                JobWrapper::Busy { .. } => false,
            }),
    {
        match self {
            JobWrapper::Available { job, paused } => !*paused && job.is_pending(now),
            JobWrapper::Busy { .. } => false,
        }
    }

    /// Make the wrapper available with `job`, even if it already was; the paused state is kept.
    pub fn make_available(&mut self, job: Job<F>)
        ensures
            *final(self) == (JobWrapper::Available { job, paused: wrapper_paused(*old(self)) }),
    {
        let paused = self.is_paused();
        *self = JobWrapper::Available { job, paused }
    }

    /// Make the wrapper busy, and return its job if it was available; the paused state is kept.
    pub fn make_busy(&mut self) -> (res: Option<Job<F>>)
        ensures
            *final(self) == (JobWrapper::<F>::Busy { paused: wrapper_paused(*old(self)) }),
            res == (match *old(self) {
                JobWrapper::Available { job, .. } => Some(job),
                JobWrapper::Busy { .. } => None,
            }),
    {
        let mut current_job = JobWrapper::Busy { paused: false };
        std::mem::swap(&mut current_job, self);
        let (result, paused) = match current_job {
            JobWrapper::Available { job, paused } => (Some(job), paused),
            JobWrapper::Busy { paused } => (None, paused),
        };
        *self = JobWrapper::Busy { paused };
        result
    }

    /// The job, if available.
    pub fn into_job_or_none(self) -> (res: Option<Job<F>>)
        ensures
            res == (match self {
                JobWrapper::Available { job, .. } => Some(job),
                JobWrapper::Busy { .. } => None,
            }),
    {
        match self {
            JobWrapper::Available { job, .. } => Some(job),
            JobWrapper::Busy { .. } => None,
        }
    }
}

// ** The job queue **

/// A queue that agrees with a finite set of jobs is not empty when some id is queued.
proof fn lemma_queued_means_nonempty<F>(jobs: Map<JobId, JobWrapper<F>>, queue: Map<JobId, i64>, id: JobId)
    requires
        jobs.dom().finite(),
        queue_consistent(jobs, queue),
        queue.contains_key(id),
    ensures
        queue.dom().len() > 0,
{
    assert(queue.dom().subset_of(jobs.dom()));
    vstd::set_lib::lemma_len_subset(queue.dom(), jobs.dom());
    vstd::set::axiom_set_remove_len(queue.dom(), id);
}

/// The queue priority of a job that runs next at `t`: the earlier, the higher.
pub open spec fn priority_of(t: int) -> int {
    -t
}

/// Whether the queue agrees with the jobs: every queued id is a known job that is available and not
/// paused, queued with the priority of its next run.
pub open spec fn queue_consistent<F>(jobs: Map<JobId, JobWrapper<F>>, queue: Map<JobId, i64>) -> bool {
    forall|id: JobId|
        #[trigger] queue.contains_key(id) ==> {
            &&& jobs.contains_key(id)
            &&& jobs[id] is Available
            &&& !wrapper_paused(jobs[id])
            &&& queue[id] == priority_of(jobs[id]->job.spec_next_run() as int)
            &&& datetime_min() <= jobs[id]->job.spec_next_run() <= datetime_max()
        }
}

/// Whether `id` is a queued job whose next run is the earliest of all queued ones.
pub open spec fn earliest(queue: Map<JobId, i64>, id: JobId) -> bool {
    &&& queue.contains_key(id)
    &&& forall|j: JobId| #[trigger] queue.contains_key(j) ==> queue[j] <= queue[id]
}

/// The jobs of a runner: every job by id, and the queue of available, unpaused jobs by next run.
pub struct RunnerJobQueue<F> {
    jobs: HashMap<JobId, JobWrapper<F>>,
    job_queue: KeyedPriorityQueue<JobId, i64>,
}

impl<F> RunnerJobQueue<F> {
    /// The jobs, by id.
    pub closed spec fn jobs_view(&self) -> Map<JobId, JobWrapper<F>> {
        self.jobs@
    }

    /// The queued jobs, with their priorities.
    pub closed spec fn queue_view(&self) -> Map<JobId, i64> {
        queue_contents(self.job_queue)
    }

    #[verifier::type_invariant]
    closed spec fn consistent(&self) -> bool {
        queue_consistent(self.jobs@, queue_contents(self.job_queue))
    }

    /// An empty job queue.
    pub fn new() -> (res: RunnerJobQueue<F>)
        ensures
            res.jobs_view().dom().is_empty(),
            res.queue_view().dom().is_empty(),
            queue_consistent(res.jobs_view(), res.queue_view()),
    {
        RunnerJobQueue { jobs: HashMap::new(), job_queue: queue_new() }
    }

    /// Take the jobs and the queue out, leaving an empty job queue behind.
    fn into_parts(&mut self) -> (res: (HashMap<JobId, JobWrapper<F>>, KeyedPriorityQueue<JobId, i64>))
        ensures
            res.0@ == old(self).jobs_view(),
            queue_contents(res.1) == old(self).queue_view(),
            queue_consistent(res.0@, queue_contents(res.1)),
    {
        proof {
            use_type_invariant(&*self);
        }
        let mut parts = RunnerJobQueue { jobs: HashMap::new(), job_queue: queue_new() };
        std::mem::swap(&mut parts, self);
        let RunnerJobQueue { jobs, job_queue } = parts;
        (jobs, job_queue)
    }

    /// Take a job which is at or past the time it should run, making it busy.
    ///
    /// `None` when there is no job, or no job is ready to run yet.
    pub fn take_ready_job(&mut self, now: i64) -> (res: Option<(JobId, Job<F>)>)
        ensures
            queue_consistent(final(self).jobs_view(), final(self).queue_view()),
            match res {
                None => {
                    &&& final(self).jobs_view() == old(self).jobs_view()
                    &&& final(self).queue_view() == old(self).queue_view()
                    &&& forall|id: JobId|
                        #[trigger] old(self).queue_view().contains_key(id) ==> old(self).jobs_view()[id]->job.spec_next_run()
                            > now
                },
                Some((id, job)) => {
                    &&& earliest(old(self).queue_view(), id)
                    &&& job.spec_next_run() <= now
                    &&& old(self).jobs_view()[id] == (JobWrapper::Available { job, paused: false })
                    &&& final(self).queue_view() == old(self).queue_view().remove(id)
                    &&& final(self).jobs_view() == old(self).jobs_view().insert(
                        id,
                        JobWrapper::<F>::Busy { paused: false },
                    )
                },
            },
    {
        proof {
            crate::dates::lemma_datetime_range();
        }
        let (mut jobs, mut queue) = self.into_parts();
        let ghost old_jobs = jobs@;
        let ghost old_queue = queue_contents(queue);
        let priority = match queue_peek(&queue) {
            Some((_, p)) => p,
            None => {
                proof {
                    assert(jobs@.dom().finite());
                    assert forall|id: JobId| #[trigger] old_queue.contains_key(id) implies old_jobs[id]->job.spec_next_run()
                        > now by {
                        lemma_queued_means_nonempty(old_jobs, old_queue, id);
                    }
                }
                *self = RunnerJobQueue { jobs, job_queue: queue };
                return None;
            },
        };
        if now < -8334601228800 || priority < -now {
            proof {
                assert forall|id: JobId| #[trigger] old_queue.contains_key(id) implies old_jobs[id]->job.spec_next_run()
                    > now by {
                    assert(old_queue[id] <= priority);
                }
            }
            *self = RunnerJobQueue { jobs, job_queue: queue };
            return None;
        }
        let popped = queue_pop(&mut queue);
        let id = match popped {
            Some((k, _)) => k,
            None => {
                *self = RunnerJobQueue { jobs, job_queue: queue };
                return None;
            },
        };
        proof {
            assert(old_queue.contains_key(id));
            assert(old_queue[id] >= priority);
        }
        let taken = jobs.remove(&id);
        let mut wrapper = match taken {
            Some(w) => w,
            None => {
                *self = RunnerJobQueue { jobs, job_queue: queue };
                return None;
            },
        };
        let job = match wrapper.make_busy() {
            Some(j) => j,
            None => {
                jobs.insert(id, wrapper);
                *self = RunnerJobQueue { jobs, job_queue: queue };
                return None;
            },
        };
        jobs.insert(id, wrapper);
        proof {
            assert(jobs@ =~= old_jobs.insert(id, JobWrapper::<F>::Busy { paused: false }));
            assert forall|j: JobId| #[trigger] queue_contents(queue).contains_key(j) implies {
                &&& jobs@.contains_key(j)
                &&& jobs@[j] is Available
                &&& !wrapper_paused(jobs@[j])
                &&& queue_contents(queue)[j] == priority_of(jobs@[j]->job.spec_next_run() as int)
                &&& datetime_min() <= jobs@[j]->job.spec_next_run() <= datetime_max()
            } by {
                assert(old_queue.contains_key(j));
                assert(j != id);
            }
        }
        *self = RunnerJobQueue { jobs, job_queue: queue };
        Some((id, job))
    }

    /// After a job is done running, queue it again (unless it is paused) and make it available.
    ///
    /// A job that was removed in the meantime is returned.
    pub fn requeue_job(&mut self, id: JobId, job: Job<F>) -> (res: Option<Job<F>>)
        ensures
            queue_consistent(final(self).jobs_view(), final(self).queue_view()),
            !old(self).jobs_view().contains_key(id) ==> {
                &&& res == Some(job)
                &&& final(self).jobs_view() == old(self).jobs_view()
                &&& final(self).queue_view() == old(self).queue_view()
            },
            old(self).jobs_view().contains_key(id) ==> {
                let paused = wrapper_paused(old(self).jobs_view()[id]);
                &&& res is None
                &&& final(self).jobs_view() == old(self).jobs_view().insert(id, JobWrapper::Available { job, paused })
                &&& final(self).queue_view() == (if paused {
                    old(self).queue_view()
                } else {
                    old(self).queue_view().insert(id, priority_of(job.spec_next_run() as int) as i64)
                })
            },
    {
        proof {
            crate::dates::lemma_datetime_range();
        }
        job.next_run_in_chrono_range();
        let (mut jobs, mut queue) = self.into_parts();
        let ghost old_jobs = jobs@;
        let ghost old_queue = queue_contents(queue);
        let taken = jobs.remove(&id);
        let mut wrapper = match taken {
            Some(w) => w,
            None => {
                proof {
                    assert(jobs@ =~= old_jobs);
                }
                *self = RunnerJobQueue { jobs, job_queue: queue };
                return Some(job);
            },
        };
        let paused = wrapper.is_paused();
        if !paused {
            queue_push(&mut queue, id, -job.next_run());
        }
        wrapper.make_available(job);
        jobs.insert(id, wrapper);
        proof {
            assert(jobs@ =~= old_jobs.insert(id, JobWrapper::Available { job, paused }));
            assert forall|j: JobId| #[trigger] queue_contents(queue).contains_key(j) implies {
                &&& jobs@.contains_key(j)
                &&& jobs@[j] is Available
                &&& !wrapper_paused(jobs@[j])
                &&& queue_contents(queue)[j] == priority_of(jobs@[j]->job.spec_next_run() as int)
                &&& datetime_min() <= jobs@[j]->job.spec_next_run() <= datetime_max()
            } by {
                if j != id {
                    assert(old_queue.contains_key(j));
                }
            }
        }
        *self = RunnerJobQueue { jobs, job_queue: queue };
        None
    }

    /// Add a job to the queue; a job already past due is instantly available to
    /// [RunnerJobQueue::take_ready_job].
    pub fn push(&mut self, id: JobId, job: Job<F>)
        ensures
            queue_consistent(final(self).jobs_view(), final(self).queue_view()),
            final(self).queue_view() == old(self).queue_view().insert(id, priority_of(job.spec_next_run() as int) as i64),
            final(self).jobs_view() == old(self).jobs_view().insert(id, JobWrapper::Available { job, paused: false }),
    {
        proof {
            crate::dates::lemma_datetime_range();
        }
        job.next_run_in_chrono_range();
        let (mut jobs, mut queue) = self.into_parts();
        let ghost old_queue = queue_contents(queue);
        queue_push(&mut queue, id, -job.next_run());
        jobs.insert(id, JobWrapper::new(job));
        proof {
            assert forall|j: JobId| #[trigger] queue_contents(queue).contains_key(j) implies {
                &&& jobs@.contains_key(j)
                &&& jobs@[j] is Available
                &&& !wrapper_paused(jobs@[j])
                &&& queue_contents(queue)[j] == priority_of(jobs@[j]->job.spec_next_run() as int)
                &&& datetime_min() <= jobs@[j]->job.spec_next_run() <= datetime_max()
            } by {
                if j != id {
                    assert(old_queue.contains_key(j));
                }
            }
        }
        *self = RunnerJobQueue { jobs, job_queue: queue };
    }

    /// Remove a job entirely, returning it when it was available.
    pub fn remove(&mut self, id: JobId) -> (res: Option<Job<F>>)
        ensures
            queue_consistent(final(self).jobs_view(), final(self).queue_view()),
            final(self).queue_view() == old(self).queue_view().remove(id),
            final(self).jobs_view() == old(self).jobs_view().remove(id),
            res == (if old(self).jobs_view().contains_key(id) {
                match old(self).jobs_view()[id] {
                    JobWrapper::Available { job, .. } => Some(job),
                    JobWrapper::Busy { .. } => None,
                }
            } else {
                None
            }),
    {
        let (mut jobs, mut queue) = self.into_parts();
        let ghost old_queue = queue_contents(queue);
        let _ = queue_remove(&mut queue, id);
        let removed = jobs.remove(&id);
        proof {
            assert forall|j: JobId| #[trigger] queue_contents(queue).contains_key(j) implies {
                &&& jobs@.contains_key(j)
                &&& jobs@[j] is Available
                &&& !wrapper_paused(jobs@[j])
                &&& queue_contents(queue)[j] == priority_of(jobs@[j]->job.spec_next_run() as int)
                &&& datetime_min() <= jobs@[j]->job.spec_next_run() <= datetime_max()
            } by {
                assert(old_queue.contains_key(j));
            }
        }
        *self = RunnerJobQueue { jobs, job_queue: queue };
        match removed {
            Some(w) => w.into_job_or_none(),
            None => None,
        }
    }

    /// Pause a job: it leaves the queue until it is resumed.
    pub fn pause_job(&mut self, id: JobId)
        ensures
            queue_consistent(final(self).jobs_view(), final(self).queue_view()),
            old(self).jobs_view().contains_key(id) ==> {
                &&& final(self).queue_view() == old(self).queue_view().remove(id)
                &&& final(self).jobs_view().contains_key(id)
                &&& wrapper_paused(final(self).jobs_view()[id])
                &&& (final(self).jobs_view()[id] is Available) == (old(self).jobs_view()[id] is Available)
                &&& final(self).jobs_view() == old(self).jobs_view().insert(id, final(self).jobs_view()[id])
            },
            !old(self).jobs_view().contains_key(id) ==> final(self).jobs_view() == old(self).jobs_view()
                && final(self).queue_view() == old(self).queue_view(),
    {
        let (mut jobs, mut queue) = self.into_parts();
        let ghost old_jobs = jobs@;
        let ghost old_queue = queue_contents(queue);
        let taken = jobs.remove(&id);
        match taken {
            Some(mut w) => {
                let _ = queue_remove(&mut queue, id);
                w.set_paused(true);
                let ghost nw = w;
                jobs.insert(id, w);
                proof {
                    assert(jobs@ =~= old_jobs.insert(id, nw));
                    assert forall|j: JobId| #[trigger] queue_contents(queue).contains_key(j) implies {
                        &&& jobs@.contains_key(j)
                        &&& jobs@[j] is Available
                        &&& !wrapper_paused(jobs@[j])
                        &&& queue_contents(queue)[j] == priority_of(jobs@[j]->job.spec_next_run() as int)
                        &&& datetime_min() <= jobs@[j]->job.spec_next_run() <= datetime_max()
                    } by {
                        assert(old_queue.contains_key(j));
                    }
                }
            },
            None => {
                proof {
                    assert(jobs@ =~= old_jobs);
                }
            },
        }
        *self = RunnerJobQueue { jobs, job_queue: queue };
    }

    /// Resume a paused job: when available, it is queued again by its next run.
    pub fn unpause_job(&mut self, id: JobId)
        ensures
            queue_consistent(final(self).jobs_view(), final(self).queue_view()),
            old(self).jobs_view().contains_key(id) ==> {
                &&& final(self).jobs_view().contains_key(id)
                &&& !wrapper_paused(final(self).jobs_view()[id])
                &&& final(self).jobs_view() == old(self).jobs_view().insert(id, final(self).jobs_view()[id])
                &&& match old(self).jobs_view()[id] {
                    JobWrapper::Available { job, .. } => {
                        &&& final(self).jobs_view()[id] == (JobWrapper::Available { job, paused: false })
                        &&& final(self).queue_view() == old(self).queue_view().insert(
                            id,
                            priority_of(job.spec_next_run() as int) as i64,
                        )
                    },
                    JobWrapper::Busy { .. } => {
                        &&& final(self).jobs_view()[id] == (JobWrapper::<F>::Busy { paused: false })
                        &&& final(self).queue_view() == old(self).queue_view()
                    },
                }
            },
            !old(self).jobs_view().contains_key(id) ==> final(self).jobs_view() == old(self).jobs_view()
                && final(self).queue_view() == old(self).queue_view(),
    {
        proof {
            crate::dates::lemma_datetime_range();
        }
        let (mut jobs, mut queue) = self.into_parts();
        let ghost old_jobs = jobs@;
        let ghost old_queue = queue_contents(queue);
        let taken = jobs.remove(&id);
        match taken {
            Some(mut w) => {
                match &w {
                    JobWrapper::Available { job, .. } => {
                        job.next_run_in_chrono_range();
                        queue_push(&mut queue, id, -job.next_run());
                    },
                    JobWrapper::Busy { .. } => {},
                }
                w.set_paused(false);
                let ghost nw = w;
                jobs.insert(id, w);
                proof {
                    assert(jobs@ =~= old_jobs.insert(id, nw));
                    assert forall|j: JobId| #[trigger] queue_contents(queue).contains_key(j) implies {
                        &&& jobs@.contains_key(j)
                        &&& jobs@[j] is Available
                        &&& !wrapper_paused(jobs@[j])
                        &&& queue_contents(queue)[j] == priority_of(jobs@[j]->job.spec_next_run() as int)
                        &&& datetime_min() <= jobs@[j]->job.spec_next_run() <= datetime_max()
                    } by {
                        if j != id {
                            assert(old_queue.contains_key(j));
                        }
                    }
                }
            },
            None => {
                proof {
                    assert(jobs@ =~= old_jobs);
                }
            },
        }
        *self = RunnerJobQueue { jobs, job_queue: queue };
    }
}


impl<F> RunnerJobQueue<F> {
    /// The queue holds finitely many jobs.
    pub fn queue_is_finite(&self)
        ensures
            self.queue_view().dom().finite(),
            queue_consistent(self.jobs_view(), self.queue_view()),
    {
        proof {
            use_type_invariant(self);
            assert(self.jobs@.dom().finite());
            assert(self.queue_view().dom().subset_of(self.jobs@.dom()));
            vstd::set_lib::lemma_len_subset(self.queue_view().dom(), self.jobs@.dom());
        }
    }
}

// ** The runner's decisions **

/// What the runner is told: add, remove, pause or resume a job, or pause or resume the whole scheduler.
pub enum Messages<F> {
    AddJob(JobId, Job<F>),
    RemoveJob(JobId),
    PauseScheduler,
    ResumeScheduler,
    PauseJob(JobId),
    ResumeJob(JobId),
}

/// The state of a runner: its jobs, and whether the whole scheduler is paused.
pub struct RunnerState<F> {
    pub job_queue: RunnerJobQueue<F>,
    pub is_paused: bool,
}

impl<F> RunnerState<F> {
    /// A runner with the jobs of `backlog` (each queued by its next run), paused or not.
    pub fn new(backlog: Vec<(JobId, Job<F>)>, is_paused: bool) -> (res: RunnerState<F>)
        ensures
            res.is_paused == is_paused,
            res.job_queue.jobs_view().dom() == backlog@.map_values(|e: (JobId, Job<F>)| e.0).to_set(),
    {
        let ghost ids = backlog@.map_values(|e: (JobId, Job<F>)| e.0);
        let mut job_queue = RunnerJobQueue::new();
        let mut rest = backlog;
        let mut k: usize = 0;
        proof {
            assert(ids.skip(0) =~= ids);
            assert(ids.len() == rest.len());
            assert(job_queue.jobs_view().dom() =~= ids.take(0).to_set());
        }
        while rest.len() > 0
            invariant
                k + rest.len() == ids.len(),
                ids.len() <= usize::MAX,
                rest@.map_values(|e: (JobId, Job<F>)| e.0) == ids.skip(k as int),
                job_queue.jobs_view().dom() == ids.take(k as int).to_set(),
            decreases rest.len(),
        {
            let ghost before = rest@;
            let (id, job) = rest.remove(0);
            proof {
                assert(rest@ =~= before.drop_first());
                assert(before.map_values(|e: (JobId, Job<F>)| e.0)[0] == id);
                assert(ids.skip(k + 1) =~= ids.skip(k as int).drop_first());
                assert(rest@.map_values(|e: (JobId, Job<F>)| e.0) =~= before.map_values(|e: (JobId, Job<F>)| e.0).drop_first());
                assert(ids.skip(k as int)[0] == ids[k as int]);
            }
            job_queue.push(id, job);
            proof {
                assert(ids.take(k + 1) =~= ids.take(k as int).push(id));
                ids.take(k as int).lemma_push_to_set_commute(id);
                assert(job_queue.jobs_view().dom() =~= ids.take(k + 1).to_set());
            }
            k = k + 1;
        }
        proof {
            assert(ids.take(k as int) =~= ids);
        }
        RunnerState { job_queue, is_paused }
    }

    /// Act on a message; a removed job is returned.
    pub fn handle_msg(&mut self, msg: Messages<F>) -> (res: Option<Job<F>>)
        ensures
            match msg {
                Messages::AddJob(id, job) => {
                    &&& final(self).job_queue.jobs_view() == old(self).job_queue.jobs_view().insert(
                        id,
                        JobWrapper::Available { job, paused: false },
                    )
                    &&& final(self).job_queue.queue_view() == old(self).job_queue.queue_view().insert(
                        id,
                        priority_of(job.spec_next_run() as int) as i64,
                    )
                    &&& final(self).is_paused == old(self).is_paused
                    &&& res is None
                },
                Messages::RemoveJob(id) => {
                    &&& final(self).job_queue.jobs_view() == old(self).job_queue.jobs_view().remove(id)
                    &&& final(self).job_queue.queue_view() == old(self).job_queue.queue_view().remove(id)
                    &&& final(self).is_paused == old(self).is_paused
                    &&& res == (if old(self).job_queue.jobs_view().contains_key(id) {
                        match old(self).job_queue.jobs_view()[id] {
                            JobWrapper::Available { job, .. } => Some(job),
                            JobWrapper::Busy { .. } => None,
                        }
                    } else {
                        None
                    })
                },
                Messages::PauseScheduler => {
                    &&& final(self).is_paused
                    &&& final(self).job_queue.jobs_view() == old(self).job_queue.jobs_view()
                    &&& final(self).job_queue.queue_view() == old(self).job_queue.queue_view()
                    &&& res is None
                },
                Messages::ResumeScheduler => {
                    &&& !final(self).is_paused
                    &&& final(self).job_queue.jobs_view() == old(self).job_queue.jobs_view()
                    &&& final(self).job_queue.queue_view() == old(self).job_queue.queue_view()
                    &&& res is None
                },
                Messages::PauseJob(id) => {
                    &&& !final(self).job_queue.queue_view().contains_key(id)
                    &&& final(self).is_paused == old(self).is_paused
                    &&& res is None
                },
                Messages::ResumeJob(id) => {
                    &&& old(self).job_queue.jobs_view().contains_key(id) ==> !wrapper_paused(
                        final(self).job_queue.jobs_view()[id],
                    )
                    &&& final(self).is_paused == old(self).is_paused
                    &&& res is None
                },
            },
    {
        match msg {
            Messages::AddJob(id, job) => {
                self.job_queue.push(id, job);
                None
            },
            Messages::RemoveJob(id) => self.job_queue.remove(id),
            Messages::PauseScheduler => {
                self.is_paused = true;
                None
            },
            Messages::ResumeScheduler => {
                self.is_paused = false;
                None
            },
            Messages::PauseJob(id) => {
                self.job_queue.pause_job(id);
                None
            },
            Messages::ResumeJob(id) => {
                self.job_queue.unpause_job(id);
                None
            },
        }
    }

    /// Take every job that is due at `now`, earliest first; they become busy until they are requeued.
    pub fn check_pending_jobs(&mut self, now: i64) -> (res: Vec<(JobId, Job<F>)>)
        ensures
            forall|i: int| 0 <= i < res@.len() ==> (#[trigger] res@[i]).1.spec_next_run() <= now,
            forall|id: JobId|
                #[trigger] final(self).job_queue.queue_view().contains_key(id)
                    ==> final(self).job_queue.jobs_view()[id]->job.spec_next_run() > now,
            forall|id: JobId|
                #[trigger] final(self).job_queue.queue_view().contains_key(id)
                    ==> old(self).job_queue.queue_view().contains_key(id),
            final(self).is_paused == old(self).is_paused,
    {
        let mut taken: Vec<(JobId, Job<F>)> = Vec::new();
        let ghost start = self.job_queue.queue_view();
        loop
            invariant
                forall|i: int| 0 <= i < taken@.len() ==> (#[trigger] taken@[i]).1.spec_next_run() <= now,
                forall|id: JobId| #[trigger] self.job_queue.queue_view().contains_key(id) ==> start.contains_key(id),
                self.is_paused == old(self).is_paused,
                start == old(self).job_queue.queue_view(),
            ensures
                forall|i: int| 0 <= i < taken@.len() ==> (#[trigger] taken@[i]).1.spec_next_run() <= now,
                forall|id: JobId|
                    #[trigger] self.job_queue.queue_view().contains_key(id) ==> self.job_queue.jobs_view()[id]->job.spec_next_run()
                        > now,
                forall|id: JobId| #[trigger] self.job_queue.queue_view().contains_key(id) ==> start.contains_key(id),
                self.is_paused == old(self).is_paused,
            decreases self.job_queue.queue_view().dom().len(),
        {
            self.job_queue.queue_is_finite();
            let ghost before = self.job_queue.queue_view();
            match self.job_queue.take_ready_job(now) {
                Some(entry) => {
                    proof {
                        vstd::set::axiom_set_remove_len(before.dom(), entry.0);
                        assert(self.job_queue.queue_view().dom() =~= before.dom().remove(entry.0));
                    }
                    taken.push(entry);
                },
                None => {
                    break;
                },
            }
        }
        taken
    }

    /// Put a job back after it ran, see [RunnerJobQueue::requeue_job].
    pub fn requeue_job(&mut self, id: JobId, job: Job<F>) -> (res: Option<Job<F>>)
        ensures
            final(self).is_paused == old(self).is_paused,
            !old(self).job_queue.jobs_view().contains_key(id) ==> res == Some(job),
            old(self).job_queue.jobs_view().contains_key(id) ==> res is None
                && final(self).job_queue.jobs_view()[id] == (JobWrapper::Available {
                job,
                paused: wrapper_paused(old(self).job_queue.jobs_view()[id]),
            }),
    {
        self.job_queue.requeue_job(id, job)
    }
}

/// A job pushed when already past due is available at once: in the jobs and the queue that
/// [RunnerJobQueue::push] leaves, not every queued job runs after `now`, which is what
/// [RunnerJobQueue::take_ready_job] needs to answer `None`; so at `now` it takes a job.
pub proof fn lemma_pushed_due_job_is_ready<F>(
    jobs: Map<JobId, JobWrapper<F>>,
    queue: Map<JobId, i64>,
    id: JobId,
    job: Job<F>,
    now: i64,
)
    requires
        job.spec_next_run() <= now,
    ensures
        !(forall|j: JobId|
            #[trigger] queue.insert(id, priority_of(job.spec_next_run() as int) as i64).contains_key(j)
                ==> jobs.insert(id, JobWrapper::Available { job, paused: false })[j]->job.spec_next_run() > now),
{
    let q = queue.insert(id, priority_of(job.spec_next_run() as int) as i64);
    let js = jobs.insert(id, JobWrapper::Available { job, paused: false });
    assert(q.contains_key(id));
    assert(js[id]->job == job);
}

} // verus!
