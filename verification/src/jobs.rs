//! The promise jobs of a script: queues that are drained one job at a time, within a
//! deadline and a budget.

use std::collections::VecDeque;
use vstd::prelude::*;

use crate::error::ScriptError;
use crate::limits::at_least_one;
use crate::limits::raise_to_one;

verus! {

/// A job that the engine hands over.
pub enum EngineJob<P, G> {
    /// A reaction to a promise.
    Promise(P),
    /// Any other job that can be run at once.
    Generic(G),
    /// A job that waits for time or for a future.
    Unsupported,
}

/// What happened last in a drain of the queues.
#[derive(Debug, Clone, Copy, PartialEq, Eq, Structural)]
pub enum JobEvent {
    /// The drain begins.
    Entered,
    /// The job that was to be run has run.
    Ran,
    /// The job that was to be run has thrown.
    Threw,
}

/// What is to be done next in a drain of the queues.
pub enum JobStep<P, G> {
    /// Run this promise job.
    RunPromise(P),
    /// Run this generic job.
    RunGeneric(G),
    /// The queues are empty: the drain is over.
    Drained,
    /// End the script with this error.
    Abort(ScriptError),
    /// Hand on the error that the job threw.
    Rethrow,
}

/// How a drain goes on.
pub enum JobDecision {
    TakePromise,
    TakeGeneric,
    Finish,
    Refuse(ScriptError),
    GiveUp,
}

/// The queued jobs of one script, with the limits within which they are run. Jobs that wait
/// for time or for a future are not kept: the script that queued one is ended.
pub struct BoundedJobExecutor<P, G> {
    pub promise_jobs: VecDeque<P>,
    pub generic_jobs: VecDeque<G>,
    /// Whether a job was queued that cannot be run.
    pub rejected_unsupported: bool,
    /// How long the run may take, in nanoseconds.
    pub wall_clock: u128,
    /// How many jobs may be run.
    pub max_jobs: usize,
    /// How many jobs have been run.
    pub jobs_run: usize,
}

impl<P, G> BoundedJobExecutor<P, G> {
    /// The executor runs no more jobs than it may, and may run one.
    pub open spec fn wf(self) -> bool {
        self.jobs_run <= self.max_jobs && self.max_jobs >= 1
    }

    /// Whether both queues are empty.
    pub open spec fn is_clear(self) -> bool {
        self.promise_jobs@.len() == 0 && self.generic_jobs@.len() == 0
    }

    /// Whether the limits of two executors agree, and what they have seen of jobs that
    /// cannot be run.
    pub open spec fn same_terms(self, other: Self) -> bool {
        &&& self.rejected_unsupported == other.rejected_unsupported
        &&& self.wall_clock == other.wall_clock
        &&& self.max_jobs == other.max_jobs
    }

    /// Which limit, if any, forbids to run a job at a time.
    pub open spec fn exceeded(self, elapsed: u128) -> Option<ScriptError> {
        if elapsed >= self.wall_clock {
            Some(ScriptError::JobDeadline)
        } else if self.jobs_run >= self.max_jobs {
            Some(ScriptError::JobBudget(self.max_jobs))
        } else {
            None
        }
    }

    /// How a drain goes on after an event: promise jobs come before generic jobs, and the limits
    /// come before either. The budget is exceeded only where a job is left that it does not
    /// allow. A job that cannot be run ends the drain when it begins and when the queues are
    /// empty.
    pub open spec fn decision(self, event: JobEvent, elapsed: u128) -> JobDecision {
        if event == JobEvent::Threw {
            JobDecision::GiveUp
        } else if event == JobEvent::Entered && self.rejected_unsupported {
            JobDecision::Refuse(ScriptError::UnsupportedJob)
        } else if elapsed >= self.wall_clock {
            JobDecision::Refuse(ScriptError::JobDeadline)
        } else if self.is_clear() {
            if self.rejected_unsupported {
                JobDecision::Refuse(ScriptError::UnsupportedJob)
            } else {
                JobDecision::Finish
            }
        } else if self.jobs_run >= self.max_jobs {
            JobDecision::Refuse(ScriptError::JobBudget(self.max_jobs))
        } else if self.promise_jobs@.len() > 0 {
            JobDecision::TakePromise
        } else {
            JobDecision::TakeGeneric
        }
    }

    /// What a step does, given how the drain goes on.
    pub open spec fn stepped(
        before: Self,
        decision: JobDecision,
        after: Self,
        step: JobStep<P, G>,
    ) -> bool {
        &&& after.same_terms(before)
        &&& match decision {
            JobDecision::TakePromise => {
                &&& step == JobStep::<P, G>::RunPromise(before.promise_jobs@[0])
                &&& after.promise_jobs@ == before.promise_jobs@.drop_first()
                &&& after.generic_jobs@ == before.generic_jobs@
                &&& after.jobs_run == before.jobs_run + 1
            },
            JobDecision::TakeGeneric => {
                &&& step == JobStep::<P, G>::RunGeneric(before.generic_jobs@[0])
                &&& after.promise_jobs@ == before.promise_jobs@
                &&& after.generic_jobs@ == before.generic_jobs@.drop_first()
                &&& after.jobs_run == before.jobs_run + 1
            },
            JobDecision::Finish => {
                &&& step == JobStep::<P, G>::Drained
                &&& after.promise_jobs@ == before.promise_jobs@
                &&& after.generic_jobs@ == before.generic_jobs@
                &&& after.jobs_run == before.jobs_run
            },
            JobDecision::Refuse(error) => {
                &&& step == JobStep::<P, G>::Abort(error)
                &&& after.is_clear()
                &&& after.jobs_run == before.jobs_run
            },
            JobDecision::GiveUp => {
                &&& step == JobStep::<P, G>::Rethrow
                &&& after.is_clear()
                &&& after.jobs_run == before.jobs_run
            },
        }
    }

    /// An executor without jobs. A budget of no jobs counts as one.
    pub fn new(wall_clock: u128, max_jobs: usize) -> (executor: Self)
        ensures
            executor.wf(),
            executor.is_clear(),
            !executor.rejected_unsupported,
            executor.wall_clock == wall_clock,
            executor.max_jobs == at_least_one(max_jobs),
            executor.jobs_run == 0,
    {
        BoundedJobExecutor {
            promise_jobs: VecDeque::new(),
            generic_jobs: VecDeque::new(),
            rejected_unsupported: false,
            wall_clock: wall_clock,
            max_jobs: raise_to_one(max_jobs),
            jobs_run: 0,
        }
    }

    /// Drops all queued jobs.
    pub fn clear(&mut self)
        ensures
            final(self).is_clear(),
            final(self).same_terms(*old(self)),
            final(self).jobs_run == old(self).jobs_run,
    {
        self.promise_jobs.clear();
        self.generic_jobs.clear();
    }

    /// Whether one more job may be run at this time of the run. Where it may not, all queued
    /// jobs are dropped.
    pub fn check_budget(&mut self, elapsed: u128) -> (checked: Result<(), ScriptError>)
        ensures
            match checked {
                Ok(_) => old(self).exceeded(elapsed) is None && *final(self) == *old(self),
                Err(error) => {
                    &&& old(self).exceeded(elapsed) == Some(error)
                    &&& final(self).is_clear()
                    &&& final(self).same_terms(*old(self))
                    &&& final(self).jobs_run == old(self).jobs_run
                },
            },
    {
        if elapsed >= self.wall_clock {
            self.clear();
            return Err(ScriptError::JobDeadline);
        }
        if self.jobs_run >= self.max_jobs {
            self.clear();
            return Err(ScriptError::JobBudget(self.max_jobs));
        }
        Ok(())
    }

    /// Queues a job behind those of its kind. A job that cannot be run is dropped and noted.
    pub fn enqueue_job(&mut self, job: EngineJob<P, G>)
        ensures
            final(self).wall_clock == old(self).wall_clock,
            final(self).max_jobs == old(self).max_jobs,
            final(self).jobs_run == old(self).jobs_run,
            final(self).promise_jobs@ == match job {
                EngineJob::Promise(p) => old(self).promise_jobs@.push(p),
                _ => old(self).promise_jobs@,
            },
            final(self).generic_jobs@ == match job {
                EngineJob::Generic(g) => old(self).generic_jobs@.push(g),
                _ => old(self).generic_jobs@,
            },
            final(self).rejected_unsupported == (old(self).rejected_unsupported
                || job is Unsupported),
            old(self).wf() ==> final(self).wf(),
    {
        match job {
            EngineJob::Promise(p) => {
                self.promise_jobs.push_back(p);
            },
            EngineJob::Generic(g) => {
                self.generic_jobs.push_back(g);
            },
            EngineJob::Unsupported => {
                self.rejected_unsupported = true;
            },
        }
    }

    /// Decides what a drain of the queues does after an event: which job to run next, or how
    /// the drain ends.
    pub fn run_jobs(&mut self, event: JobEvent, elapsed: u128) -> (step: JobStep<P, G>)
        ensures
            Self::stepped(*old(self), old(self).decision(event, elapsed), *final(self), step),
            old(self).wf() ==> final(self).wf(),
    {
        if event == JobEvent::Threw {
            self.clear();
            return JobStep::Rethrow;
        }
        if event == JobEvent::Entered && self.rejected_unsupported {
            self.clear();
            return JobStep::Abort(ScriptError::UnsupportedJob);
        }
        let empty: bool = self.promise_jobs.len() == 0 && self.generic_jobs.len() == 0;
        if elapsed < self.wall_clock && empty {
            if self.rejected_unsupported {
                return JobStep::Abort(ScriptError::UnsupportedJob);
            }
            return JobStep::Drained;
        }
        match self.check_budget(elapsed) {
            Ok(_) => {},
            Err(error) => {
                return JobStep::Abort(error);
            },
        }
        if let Some(job) = self.promise_jobs.pop_front() {
            self.jobs_run = self.jobs_run + 1;
            return JobStep::RunPromise(job);
        }
        if let Some(job) = self.generic_jobs.pop_front() {
            self.jobs_run = self.jobs_run + 1;
            return JobStep::RunGeneric(job);
        }
        JobStep::Drained
    }
}

} // verus!
