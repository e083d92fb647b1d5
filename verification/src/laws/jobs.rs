//! Laws of promise jobs: their budget and their order.

use vstd::prelude::*;

use crate::error::ScriptError;
use crate::jobs::BoundedJobExecutor;
use crate::jobs::EngineJob;
use crate::jobs::JobEvent;
use crate::jobs::JobStep;
use crate::limits::at_least_one;

verus! {

/// Whether a step of a drain runs a job.
pub open spec fn runs_job<P, G>(step: JobStep<P, G>) -> bool {
    step is RunPromise || step is RunGeneric
}

/// Whether one executor becomes another by a step that runs a job, or by anything that runs
/// none: another step, a job that is queued, or jobs that are dropped.
pub open spec fn moves<P, G>(
    before: BoundedJobExecutor<P, G>,
    ran: bool,
    after: BoundedJobExecutor<P, G>,
) -> bool {
    if ran {
        exists|event: JobEvent, elapsed: u128, step: JobStep<P, G>| #[trigger]
            BoundedJobExecutor::stepped(before, before.decision(event, elapsed), after, step)
                && runs_job(step)
    } else {
        after.jobs_run == before.jobs_run && after.max_jobs == before.max_jobs
    }
}

/// How many of the moves run a job.
pub open spec fn count_runs(ran: Seq<bool>) -> int
    decreases ran.len(),
{
    if ran.len() == 0 {
        0
    } else {
        count_runs(ran.drop_last()) + if ran.last() {
            1int
        } else {
            0int
        }
    }
}

/// However many jobs a script queues, and however its jobs queue new ones, no more are run than
/// may be.
pub proof fn law_jobs_stay_within_budget<P, G>(
    states: Seq<BoundedJobExecutor<P, G>>,
    ran: Seq<bool>,
)
    requires
        states.len() == ran.len() + 1,
        states[0].wf(),
        forall|i: int| 0 <= i < ran.len() ==> moves(states[i], #[trigger] ran[i], states[i + 1]),
    ensures
        states.last().wf(),
        states.last().max_jobs == states[0].max_jobs,
        states.last().jobs_run == states[0].jobs_run + count_runs(ran),
        states[0].jobs_run + count_runs(ran) <= states[0].max_jobs,
    decreases ran.len(),
{
    if ran.len() > 0 {
        let earlier = states.drop_last();
        let did = ran.drop_last();
        assert forall|i: int| 0 <= i < did.len() implies moves(
            earlier[i],
            #[trigger] did[i],
            earlier[i + 1],
        ) by {
            assert(moves(states[i], ran[i], states[i + 1]));
        }
        law_jobs_stay_within_budget(earlier, did);
        let k = ran.len() - 1;
        assert(moves(states[k], ran[k], states[k + 1]));
        assert(earlier.last() == states[k]);
    }
}

/// A drain whose time is over, or whose budget is used up while a job is left, ends at once with
/// an error, and so does one that begins after a job was queued that cannot be run.
pub proof fn law_exceeded_drain_ends<P, G>(
    before: BoundedJobExecutor<P, G>,
    event: JobEvent,
    elapsed: u128,
    after: BoundedJobExecutor<P, G>,
    step: JobStep<P, G>,
)
    requires
        BoundedJobExecutor::stepped(before, before.decision(event, elapsed), after, step),
        event != JobEvent::Threw,
        (before.jobs_run >= before.max_jobs && !before.is_clear()) || elapsed >= before.wall_clock
            || (event == JobEvent::Entered && before.rejected_unsupported),
    ensures
        step is Abort,
        after.is_clear(),
{
}

/// Within the deadline a drain without a job left ends well, also where as many jobs were run as
/// may be, unless a job was queued that cannot be run.
pub proof fn law_used_up_budget_is_no_error<P, G>(
    before: BoundedJobExecutor<P, G>,
    event: JobEvent,
    elapsed: u128,
    after: BoundedJobExecutor<P, G>,
    step: JobStep<P, G>,
)
    requires
        BoundedJobExecutor::stepped(before, before.decision(event, elapsed), after, step),
        event != JobEvent::Threw,
        elapsed < before.wall_clock,
        before.is_clear(),
        !before.rejected_unsupported,
    ensures
        step is Drained,
{
}

/// A drain that ends well has run every job, and no job was queued that cannot be run.
pub proof fn law_drained_is_clear<P, G>(
    before: BoundedJobExecutor<P, G>,
    event: JobEvent,
    elapsed: u128,
    after: BoundedJobExecutor<P, G>,
    step: JobStep<P, G>,
)
    requires
        BoundedJobExecutor::stepped(before, before.decision(event, elapsed), after, step),
        step is Drained,
    ensures
        after.is_clear(),
        !after.rejected_unsupported,
{
}

/// The queued jobs in the order in which they are run: promise jobs first, each kind in the
/// order in which it was queued.
pub open spec fn run_order<P, G>(executor: BoundedJobExecutor<P, G>) -> Seq<EngineJob<P, G>> {
    executor.promise_jobs@.map_values(|p: P| EngineJob::<P, G>::Promise(p))
        + executor.generic_jobs@.map_values(|g: G| EngineJob::<P, G>::Generic(g))
}

/// A step that runs a job runs the first in this order, and leaves the others.
pub proof fn law_first_job_runs_first<P, G>(
    before: BoundedJobExecutor<P, G>,
    event: JobEvent,
    elapsed: u128,
    after: BoundedJobExecutor<P, G>,
    step: JobStep<P, G>,
)
    requires
        BoundedJobExecutor::stepped(before, before.decision(event, elapsed), after, step),
        runs_job(step),
    ensures
        run_order(before).len() > 0,
        match step {
            JobStep::RunPromise(p) => run_order(before)[0] == EngineJob::<P, G>::Promise(p),
            JobStep::RunGeneric(g) => run_order(before)[0] == EngineJob::<P, G>::Generic(g),
            _ => false,
        },
        run_order(after) == run_order(before).drop_first(),
{
    assert(run_order(after) =~= run_order(before).drop_first());
}

/// Within the limits a drain goes on while a job is left: it runs one, unless a job threw, or the
/// drain begins after a job was queued that cannot be run.
pub proof fn law_jobs_are_run_while_some_are_left<P, G>(
    before: BoundedJobExecutor<P, G>,
    event: JobEvent,
    elapsed: u128,
    after: BoundedJobExecutor<P, G>,
    step: JobStep<P, G>,
)
    requires
        BoundedJobExecutor::stepped(before, before.decision(event, elapsed), after, step),
        event == JobEvent::Ran || (event == JobEvent::Entered && !before.rejected_unsupported),
        elapsed < before.wall_clock,
        before.jobs_run < before.max_jobs,
        before.promise_jobs@.len() + before.generic_jobs@.len() > 0,
    ensures
        runs_job(step),
        after.jobs_run == before.jobs_run + 1,
        after.promise_jobs@.len() + after.generic_jobs@.len() + 1 == before.promise_jobs@.len()
            + before.generic_jobs@.len(),
{
}

/// A drain that ends with an error ends for a cause, and tells it: the time is over, the budget
/// is used up while a job is left, or a job was queued that cannot be run. A job that throws ends
/// it too. In each of these ways all queued jobs are dropped.
pub proof fn law_drains_end_for_a_cause<P, G>(
    before: BoundedJobExecutor<P, G>,
    event: JobEvent,
    elapsed: u128,
    after: BoundedJobExecutor<P, G>,
    step: JobStep<P, G>,
)
    requires
        BoundedJobExecutor::stepped(before, before.decision(event, elapsed), after, step),
    ensures
        match step {
            JobStep::Abort(ScriptError::JobDeadline) => elapsed >= before.wall_clock,
            JobStep::Abort(ScriptError::JobBudget(n)) => n == before.max_jobs && before.jobs_run
                >= n && before.promise_jobs@.len() + before.generic_jobs@.len() > 0,
            JobStep::Abort(ScriptError::UnsupportedJob) => before.rejected_unsupported,
            JobStep::Abort(_) => false,
            JobStep::Rethrow => event == JobEvent::Threw,
            _ => true,
        },
        event == JobEvent::Threw ==> step is Rethrow,
        event == JobEvent::Ran && elapsed >= before.wall_clock ==> step == JobStep::<P, G>::Abort(
            ScriptError::JobDeadline,
        ),
        event == JobEvent::Entered && before.rejected_unsupported ==> step == JobStep::<
            P,
            G,
        >::Abort(ScriptError::UnsupportedJob),
        step is Abort || step is Rethrow ==> after.promise_jobs@.len() == 0
            && after.generic_jobs@.len() == 0,
        after.max_jobs == before.max_jobs,
        after.wall_clock == before.wall_clock,
        after.rejected_unsupported == before.rejected_unsupported,
        !runs_job(step) ==> after.jobs_run == before.jobs_run,
{
}

/// A job may be run exactly within the deadline and the budget, and the deadline is told first.
pub proof fn law_job_limits<P, G>(executor: BoundedJobExecutor<P, G>, elapsed: u128)
    ensures
        executor.exceeded(elapsed) is None <==> elapsed < executor.wall_clock && executor.jobs_run
            < executor.max_jobs,
        elapsed >= executor.wall_clock ==> executor.exceeded(elapsed) == Some(
            ScriptError::JobDeadline,
        ),
        elapsed < executor.wall_clock && executor.jobs_run >= executor.max_jobs
            ==> executor.exceeded(elapsed) == Some(ScriptError::JobBudget(executor.max_jobs)),
{
}

/// A limit is taken as it is, but for zero, which would let nothing go on, and counts as one.
pub proof fn law_limits_are_kept(n: usize)
    ensures
        n >= 1 ==> at_least_one(n) == n,
        n == 0 ==> at_least_one(n) == 1,
{
}

/// A drain runs all the jobs that were queued, each once and in order: what it has run, and what
/// is left, are together what was queued, as long as no new job comes and nothing ends it early.
pub proof fn law_all_queued_jobs_are_run<P, G>(
    states: Seq<BoundedJobExecutor<P, G>>,
    steps: Seq<JobStep<P, G>>,
    times: Seq<u128>,
)
    requires
        states.len() == steps.len() + 1,
        times.len() == steps.len(),
        states[0].wf(),
        !states[0].rejected_unsupported,
        states[0].jobs_run + states[0].promise_jobs@.len() + states[0].generic_jobs@.len()
            <= states[0].max_jobs,
        forall|i: int| 0 <= i < times.len() ==> (#[trigger] times[i]) < states[0].wall_clock,
        forall|i: int|
            0 <= i < steps.len() ==> BoundedJobExecutor::stepped(
                states[i],
                states[i].decision(
                    if i == 0 {
                        JobEvent::Entered
                    } else {
                        JobEvent::Ran
                    },
                    times[i],
                ),
                states[i + 1],
                #[trigger] steps[i],
            ),
    ensures
        states.last().same_terms(states[0]),
        steps.len() <= run_order(states[0]).len() ==> {
            &&& states.last().jobs_run == states[0].jobs_run + steps.len()
            &&& run_order(states.last()) == run_order(states[0]).skip(steps.len() as int)
            &&& forall|i: int|
                0 <= i < steps.len() ==> step_job(#[trigger] steps[i]) == Some(
                    run_order(states[0])[i],
                )
        },
        steps.len() == run_order(states[0]).len() + 1 ==> steps.last() is Drained,
    decreases steps.len(),
{
    let n = steps.len() as int;
    let queued = run_order(states[0]);
    if n == 0 {
        assert(queued.skip(0) =~= queued);
    } else {
        let earlier = states.drop_last();
        let done = steps.drop_last();
        let seen = times.drop_last();
        assert forall|i: int| 0 <= i < seen.len() implies (#[trigger] seen[i])
            < earlier[0].wall_clock by {
            assert(seen[i] == times[i]);
        }
        assert forall|i: int| 0 <= i < done.len() implies BoundedJobExecutor::stepped(
            earlier[i],
            earlier[i].decision(
                if i == 0 {
                    JobEvent::Entered
                } else {
                    JobEvent::Ran
                },
                seen[i],
            ),
            earlier[i + 1],
            #[trigger] done[i],
        ) by {
            assert(done[i] == steps[i] && seen[i] == times[i]);
        }
        law_all_queued_jobs_are_run(earlier, done, seen);
        let event = if n == 1 {
            JobEvent::Entered
        } else {
            JobEvent::Ran
        };
        let before = states[n - 1];
        let after = states[n];
        let step = steps[n - 1];
        assert(earlier.last() == before);
        assert(times[n - 1] < states[0].wall_clock);
        assert(BoundedJobExecutor::stepped(before, before.decision(event, times[n - 1]), after, step));
        if n <= queued.len() {
            assert(run_order(before) == queued.skip(n - 1));
            assert(run_order(before).len() > 0);
            law_jobs_are_run_while_some_are_left(before, event, times[n - 1], after, step);
            law_first_job_runs_first(before, event, times[n - 1], after, step);
            assert(queued.skip(n - 1).drop_first() =~= queued.skip(n));
            assert forall|i: int| 0 <= i < n implies step_job(#[trigger] steps[i]) == Some(
                queued[i],
            ) by {
                if i < n - 1 {
                    assert(done[i] == steps[i]);
                } else {
                    assert(run_order(before)[0] == queued[n - 1]);
                }
            }
        } else if n == queued.len() + 1 {
            assert(run_order(before) == queued.skip(n - 1));
            assert(run_order(before).len() == 0);
            law_used_up_budget_is_no_error(before, event, times[n - 1], after, step);
        }
    }
}

/// The job that a step runs, if it runs one.
pub open spec fn step_job<P, G>(step: JobStep<P, G>) -> Option<EngineJob<P, G>> {
    match step {
        JobStep::RunPromise(p) => Some(EngineJob::Promise(p)),
        JobStep::RunGeneric(g) => Some(EngineJob::Generic(g)),
        _ => None,
    }
}

} // verus!
