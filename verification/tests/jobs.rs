use codemode::error::ScriptError;
use codemode::jobs::{BoundedJobExecutor, EngineJob, JobEvent, JobStep};

type Executor = BoundedJobExecutor<u32, char>;

fn next(executor: &mut Executor, event: JobEvent, elapsed: u128) -> String {
    match executor.run_jobs(event, elapsed) {
        JobStep::RunPromise(job) => format!("promise {}", job),
        JobStep::RunGeneric(job) => format!("generic {}", job),
        JobStep::Drained => "drained".to_string(),
        JobStep::Abort(error) => error.message(),
        JobStep::Rethrow => "rethrow".to_string(),
    }
}

#[test]
fn promise_jobs_run_before_generic_jobs() {
    let mut executor = Executor::new(1000, 10);
    executor.enqueue_job(EngineJob::Generic('x'));
    executor.enqueue_job(EngineJob::Promise(1));
    executor.enqueue_job(EngineJob::Promise(2));
    assert_eq!(next(&mut executor, JobEvent::Entered, 0), "promise 1");
    assert_eq!(next(&mut executor, JobEvent::Ran, 1), "promise 2");
    assert_eq!(next(&mut executor, JobEvent::Ran, 2), "generic x");
    executor.enqueue_job(EngineJob::Promise(3));
    assert_eq!(next(&mut executor, JobEvent::Ran, 3), "promise 3");
    assert_eq!(next(&mut executor, JobEvent::Ran, 4), "drained");
    assert_eq!(executor.jobs_run, 4);
}

#[test]
fn a_chain_of_jobs_hits_the_budget() {
    let mut executor = Executor::new(1000, 50);
    executor.enqueue_job(EngineJob::Promise(0));
    assert_eq!(next(&mut executor, JobEvent::Entered, 0), "promise 0");
    for i in 1..50 {
        executor.enqueue_job(EngineJob::Promise(i));
        assert_eq!(next(&mut executor, JobEvent::Ran, 0), format!("promise {}", i));
    }
    executor.enqueue_job(EngineJob::Promise(50));
    assert_eq!(
        next(&mut executor, JobEvent::Ran, 0),
        "toolport script promise-job budget exceeded (50 jobs)"
    );
    assert_eq!(executor.jobs_run, 50);
    assert!(executor.promise_jobs.is_empty());
}

#[test]
fn the_deadline_ends_a_drain() {
    let mut executor = Executor::new(1000, 1);
    assert_eq!(
        next(&mut executor, JobEvent::Entered, 1000),
        "toolport script wall-clock deadline exceeded during promise jobs"
    );
    executor.enqueue_job(EngineJob::Promise(1));
    executor.enqueue_job(EngineJob::Generic('x'));
    assert_eq!(executor.check_budget(999), Ok(()));
    assert_eq!(executor.check_budget(1000), Err(ScriptError::JobDeadline));
    assert!(executor.promise_jobs.is_empty() && executor.generic_jobs.is_empty());
}

#[test]
fn jobs_that_cannot_be_run_end_a_drain() {
    let text = "toolport script used unsupported async/timer jobs inside code mode";
    let mut executor = Executor::new(1000, 10);
    executor.enqueue_job(EngineJob::Promise(1));
    assert_eq!(next(&mut executor, JobEvent::Entered, 0), "promise 1");
    executor.enqueue_job(EngineJob::Unsupported);
    executor.enqueue_job(EngineJob::Promise(2));
    assert_eq!(next(&mut executor, JobEvent::Ran, 0), "promise 2");
    assert_eq!(next(&mut executor, JobEvent::Ran, 0), text);
    executor.enqueue_job(EngineJob::Promise(3));
    assert_eq!(next(&mut executor, JobEvent::Entered, 0), text);
    assert!(executor.promise_jobs.is_empty());
}

#[test]
fn a_job_that_throws_drops_the_others() {
    let mut executor = Executor::new(1000, 10);
    executor.enqueue_job(EngineJob::Promise(1));
    executor.enqueue_job(EngineJob::Promise(2));
    executor.enqueue_job(EngineJob::Generic('x'));
    assert_eq!(next(&mut executor, JobEvent::Entered, 0), "promise 1");
    assert_eq!(next(&mut executor, JobEvent::Threw, 5000), "rethrow");
    assert!(executor.promise_jobs.is_empty() && executor.generic_jobs.is_empty());
}

#[test]
fn a_budget_of_no_jobs_counts_as_one() {
    let mut executor = Executor::new(1000, 0);
    assert_eq!(executor.max_jobs, 1);
    executor.enqueue_job(EngineJob::Generic('x'));
    assert_eq!(next(&mut executor, JobEvent::Entered, 0), "generic x");
    executor.enqueue_job(EngineJob::Generic('y'));
    assert_eq!(
        next(&mut executor, JobEvent::Ran, 0),
        "toolport script promise-job budget exceeded (1 jobs)"
    );
    executor.clear();
}

#[test]
fn a_budget_that_is_just_used_up_is_no_error() {
    let mut executor = Executor::new(1000, 1);
    executor.enqueue_job(EngineJob::Promise(1));
    assert_eq!(next(&mut executor, JobEvent::Entered, 0), "promise 1");
    assert_eq!(executor.check_budget(0), Err(ScriptError::JobBudget(1)));
    assert_eq!(next(&mut executor, JobEvent::Ran, 0), "drained");
    assert_eq!(next(&mut executor, JobEvent::Entered, 0), "drained");
    assert_eq!(
        next(&mut executor, JobEvent::Entered, 1000),
        "toolport script wall-clock deadline exceeded during promise jobs"
    );
    executor.enqueue_job(EngineJob::Unsupported);
    assert_eq!(
        next(&mut executor, JobEvent::Ran, 0),
        "toolport script used unsupported async/timer jobs inside code mode"
    );
}
