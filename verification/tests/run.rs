use codemode::error::ScriptError;
use codemode::outcome::{aborted, completed, fail, no_context};
use codemode::run::{
    settle, wrap_script, HostFn, RunAction, RunEvent, ScriptRun, Settlement, Stage,
    MAX_DRIVE_ITERS, PRELUDE,
};
use codemode::{build_servers_prelude, Limits, ScriptOutcome};
use serde_json::Value;

fn done(pending: bool) -> RunEvent {
    RunEvent::Done { pending }
}

fn started(script: &str, catalog: &[String]) -> ScriptRun {
    let mut run = ScriptRun::new(script, catalog);
    for _ in 0..7 {
        run.step(done(false), 0, None);
    }
    assert_eq!(run.stage, Stage::Starting);
    run
}

fn outcome_of(action: RunAction) -> ScriptOutcome {
    match action {
        RunAction::Finish(outcome) => outcome,
        _ => panic!("the run was to end"),
    }
}

fn broken(reason: &str) -> Settlement {
    Settlement::Rejected(reason.to_string())
}

#[test]
fn default_limits() {
    let limits = Limits::default();
    assert_eq!(limits.max_calls, 64);
    assert_eq!(limits.wall_clock, 60_000_000_000);
    assert_eq!(limits.max_parallel, 8);
    assert_eq!(limits.max_promise_jobs, 100_000);
    assert_eq!(limits.loop_iteration_limit, 10_000_000);
    assert_eq!(limits.recursion_limit, 400);
}

#[test]
fn a_script_is_wrapped_in_an_async_function() {
    assert_eq!(wrap_script("return 1;"), "(async function () {\nreturn 1;\n})()");
}

#[test]
fn a_run_sets_up_before_it_starts() {
    let catalog = vec!["s__t".to_string()];
    let mut run = ScriptRun::new("return 1;", &catalog);
    for host in [HostFn::Call, HostFn::CallAsync, HostFn::FetchResult] {
        match run.step(done(false), 0, None) {
            RunAction::Register(function) => assert_eq!(function, host),
            _ => panic!("a host function was to be registered"),
        }
    }
    assert!(matches!(run.step(done(false), 0, None), RunAction::InjectData));
    match run.step(done(false), 0, None) {
        RunAction::Eval(code) => assert_eq!(code, PRELUDE),
        _ => panic!("code was to be run"),
    }
    match run.step(done(false), 0, None) {
        RunAction::Eval(code) => assert_eq!(code, build_servers_prelude(&catalog)),
        _ => panic!("code was to be run"),
    }
    match run.step(done(false), 0, None) {
        RunAction::Start(code) => assert_eq!(code, wrap_script("return 1;")),
        _ => panic!("the script was to be started"),
    }
    assert!(matches!(run.step(done(false), 0, None), RunAction::Flush));
    assert!(matches!(run.step(done(true), 0, None), RunAction::RunJobs));
    assert!(matches!(run.step(done(true), 0, None), RunAction::Flush));
    assert!(matches!(run.step(done(false), 0, None), RunAction::RunJobs));
    assert!(matches!(run.step(done(false), 0, None), RunAction::Observe));
    assert_eq!(run.rounds, 2);
}

#[test]
fn host_functions_have_their_names() {
    assert_eq!(HostFn::Call.global_name(), "__toolport_call");
    assert_eq!(HostFn::CallAsync.global_name(), "__toolport_call_async");
    assert_eq!(HostFn::FetchResult.global_name(), "__toolport_fetch_result");
    assert_eq!(HostFn::Call.arity(), 2);
    assert_eq!(HostFn::CallAsync.arity(), 2);
    assert_eq!(HostFn::FetchResult.arity(), 1);
}

fn observing() -> ScriptRun {
    let mut run = started("", &[]);
    for _ in 0..3 {
        run.step(done(false), 0, None);
    }
    assert_eq!(run.stage, Stage::Observing);
    run
}

#[test]
fn a_settled_value_ends_the_run() {
    let end = observing().step(RunEvent::Observed(Settlement::Plain(Some(Value::from(3)))), 5, None);
    let outcome = outcome_of(end);
    assert_eq!((outcome.value, outcome.calls, outcome.error), (Value::from(3), 5, None));
    let end = observing().step(RunEvent::Observed(Settlement::Fulfilled(None)), 0, None);
    let outcome = outcome_of(end);
    assert_eq!((outcome.value, outcome.calls, outcome.error), (Value::Null, 0, None));
}

#[test]
fn a_promise_that_waits_or_is_broken_ends_the_run_with_an_error() {
    let end = observing().step(RunEvent::Observed(Settlement::Pending), 1, None);
    let outcome = outcome_of(end);
    assert_eq!(outcome.value, Value::Null);
    assert_eq!(outcome.calls, 1);
    assert_eq!(
        outcome.error.unwrap(),
        "Error: toolport script hung on an unresolved Promise (no pending tool calls)"
    );
    let reason = broken("Error: boom");
    let outcome = outcome_of(observing().step(RunEvent::Observed(reason), 2, None));
    assert_eq!(outcome.error.unwrap(), "Error: Uncaught Error: boom");
}

#[test]
fn events_that_answer_nothing_are_passed_over() {
    let mut run = started("", &[]);
    let early = run.step(RunEvent::Observed(Settlement::Plain(None)), 0, None);
    assert!(matches!(early, RunAction::Nothing));
    assert_eq!(run.stage, Stage::Starting);
    let mut run = observing();
    assert!(matches!(run.step(done(true), 0, None), RunAction::Nothing));
    assert_eq!(run.stage, Stage::Observing);
}

#[test]
fn an_error_ends_the_run_at_any_stage() {
    for n in 0..7 {
        let mut run = ScriptRun::new("", &[]);
        for _ in 0..n {
            run.step(done(false), 0, None);
        }
        let outcome = outcome_of(run.step(RunEvent::Aborted(ScriptError::Deadline), n, None));
        assert_eq!(outcome.calls, n);
        assert_eq!(outcome.value, Value::Null);
        assert_eq!(
            outcome.error.unwrap(),
            "Error: toolport script wall-clock deadline exceeded"
        );
        assert_eq!(run.stage, Stage::Over);
        assert!(matches!(run.step(done(false), 0, None), RunAction::Nothing));
    }
}

#[test]
fn an_error_of_the_engine_is_handed_on() {
    let event = RunEvent::Threw("TypeError: boom".to_string());
    let outcome = outcome_of(started("", &[]).step(event, 4, None));
    assert_eq!(outcome.calls, 4);
    assert_eq!(outcome.value, Value::Null);
    assert_eq!(outcome.error.unwrap(), "TypeError: boom");
}

#[test]
fn a_script_that_was_refused_a_call_does_not_end_well() {
    let value = || RunEvent::Observed(Settlement::Fulfilled(Some(Value::from(3))));
    let refused = Some(ScriptError::CallBudget(2));
    let outcome = outcome_of(observing().step(value(), 2, refused));
    assert_eq!((outcome.value, outcome.calls), (Value::Null, 2));
    assert_eq!(outcome.error.unwrap(), "Error: toolport.call budget exceeded (2 calls)");
    let refused = Some(ScriptError::Deadline);
    let event = RunEvent::Observed(broken("x"));
    let outcome = outcome_of(observing().step(event, 0, refused));
    assert_eq!(outcome.error.unwrap(), "Error: Uncaught x");
}

#[test]
fn rounds_are_bounded() {
    let mut run = started("", &[]);
    assert!(matches!(run.step(done(false), 0, None), RunAction::Flush));
    let mut flushes = 1;
    let outcome = loop {
        match run.step(done(true), 0, None) {
            RunAction::Flush => flushes += 1,
            RunAction::RunJobs => {}
            RunAction::Finish(outcome) => break outcome,
            _ => panic!("another round was to be taken"),
        }
    };
    assert_eq!(flushes, MAX_DRIVE_ITERS);
    assert_eq!(
        outcome.error.unwrap(),
        "Error: toolport script exceeded internal async drive budget"
    );
}

#[test]
fn settlements_decide_the_end() {
    assert_eq!(settle(Settlement::Plain(None)), Ok(Value::Null));
    assert_eq!(settle(Settlement::Fulfilled(Some(Value::from(1)))), Ok(Value::from(1)));
    assert_eq!(settle(Settlement::Pending), Err(ScriptError::Hung));
    assert_eq!(settle(broken("x")), Err(ScriptError::Rejected("x".to_string())));
}

#[test]
fn outcomes_are_built_as_asked() {
    let outcome = completed(Value::from("v"), 2).clone();
    assert_eq!((outcome.value, outcome.calls, outcome.error), (Value::from("v"), 2, None));
    let outcome = fail(3, "text".to_string()).clone();
    assert_eq!(outcome.value, Value::Null);
    assert_eq!((outcome.calls, outcome.error), (3, Some("text".to_string())));
    let outcome = no_context("no memory");
    assert_eq!(outcome.calls, 0);
    assert_eq!(
        outcome.error.unwrap(),
        "toolport code mode: failed to create JS context: no memory"
    );
}

#[test]
fn errors_have_their_messages() {
    for (error, text) in [
        (ScriptError::CallBudget(64), "toolport.call budget exceeded (64 calls)"),
        (ScriptError::CallBudget(0), "toolport.call budget exceeded (0 calls)"),
        (ScriptError::Deadline, "toolport script wall-clock deadline exceeded"),
        (
            ScriptError::JobDeadline,
            "toolport script wall-clock deadline exceeded during promise jobs",
        ),
        (
            ScriptError::JobBudget(100_000),
            "toolport script promise-job budget exceeded (100000 jobs)",
        ),
        (
            ScriptError::UnsupportedJob,
            "toolport script used unsupported async/timer jobs inside code mode",
        ),
        (
            ScriptError::FetchUnavailable,
            "toolport.fetchResult is unavailable in this context",
        ),
        (ScriptError::EmptyCursor, "toolport.fetchResult requires a non-empty cursor"),
        (
            ScriptError::Hung,
            "toolport script hung on an unresolved Promise (no pending tool calls)",
        ),
        (ScriptError::Rejected("TypeError: x".to_string()), "Uncaught TypeError: x"),
        (ScriptError::DriveBudget, "toolport script exceeded internal async drive budget"),
    ] {
        assert_eq!(error.clone(), error);
        assert_eq!(error.message(), text);
        assert_eq!(aborted(0, &error).error.unwrap(), format!("Error: {}", text));
    }
    let largest = ScriptError::JobBudget(usize::MAX).message();
    assert_eq!(
        largest,
        format!("toolport script promise-job budget exceeded ({} jobs)", usize::MAX)
    );
}

#[test]
fn white_space_around_a_message_is_left_out() {
    for code in 0..0x110000u32 {
        if let Some(c) = char::from_u32(code) {
            let white = match code {
                0x09..=0x0d | 0x20 | 0x85 | 0xa0 | 0x1680 | 0x2000..=0x200a => true,
                0x2028 | 0x2029 | 0x202f | 0x205f | 0x3000 => true,
                _ => false,
            };
            let text = aborted(0, &ScriptError::Rejected(c.to_string())).error.unwrap();
            if white {
                assert_eq!(text, "Error: Uncaught", "{code:x}");
            } else {
                assert_eq!(text, format!("Error: Uncaught {c}"), "{code:x}");
            }
        }
    }
    let reason = ScriptError::Rejected("a b \n\u{3000}".to_string());
    assert_eq!(aborted(0, &reason).error.unwrap(), "Error: Uncaught a b");
}
