use codemode::error::ScriptError;
use codemode::host::{batch_items, replies, FlushEvent, FlushStep, HostState, PendingCall};
use codemode::wire::ScriptArg;
use codemode::Limits;
use serde_json::Value;

fn limits(max_calls: usize, max_parallel: usize) -> Limits {
    Limits { max_calls, max_parallel, wall_clock: 1000, ..Limits::default() }
}

fn tool(name: &str) -> Vec<ScriptArg> {
    vec![ScriptArg::Text(name.encode_utf16().collect())]
}

#[test]
fn calls_are_counted_up_to_the_budget() {
    let mut state: HostState<usize> = HostState::new(&limits(2, 8));
    assert_eq!(state.reserve_call_slot(0), Ok(()));
    assert_eq!(state.calls_made, 0);
    let (name, args) = state.begin_call(&tool("a"), 0).unwrap();
    assert_eq!(name, "a");
    assert_eq!(args, Value::Object(serde_json::Map::new()));
    assert!(state.begin_call(&tool("b"), 999).is_ok());
    assert_eq!(state.calls_made, 2);
    assert_eq!(state.refused, None);
    assert_eq!(state.begin_call(&tool("c"), 0), Err(ScriptError::CallBudget(2)));
    assert_eq!(state.refused, Some(ScriptError::CallBudget(2)));
    assert_eq!(state.begin_call(&tool("c"), 2000), Err(ScriptError::CallBudget(2)));
    assert_eq!(state.calls_made, 2);
}

#[test]
fn no_call_begins_at_the_deadline() {
    let mut state: HostState<usize> = HostState::new(&limits(2, 8));
    assert_eq!(state.begin_call(&tool("a"), 1000), Err(ScriptError::Deadline));
    assert_eq!(state.refused, Some(ScriptError::Deadline));
    assert_eq!(state.reserve_call_slot(1001), Err(ScriptError::Deadline));
    assert_eq!(state.calls_made, 0);
}

#[test]
fn a_budget_of_no_calls_allows_none() {
    let state: HostState<usize> = HostState::new(&limits(0, 0));
    assert_eq!(state.reserve_call_slot(0), Err(ScriptError::CallBudget(0)));
    assert_eq!(state.max_parallel, 1);
}

fn batch_of(step: FlushStep<usize>) -> Vec<(String, usize)> {
    match step {
        FlushStep::Run(batch) => {
            batch.into_iter().map(|call| (call.name, call.resolvers)).collect()
        }
        _ => panic!("a batch was to be run"),
    }
}

#[test]
fn deferred_calls_are_flushed_in_order() {
    let mut state: HostState<usize> = HostState::new(&limits(8, 2));
    for (i, name) in ["a", "b", "c"].into_iter().enumerate() {
        state.defer_call(name.to_string(), Value::Null, i);
    }
    let first = state.flush_pending_host_calls(FlushEvent::Entered, 0);
    assert_eq!(batch_of(first), vec![("a".to_string(), 0), ("b".to_string(), 1)]);
    state.defer_call("d".to_string(), Value::Null, 3);
    let second = state.flush_pending_host_calls(FlushEvent::BatchSettled, 1);
    assert_eq!(batch_of(second), vec![("c".to_string(), 2), ("d".to_string(), 3)]);
    let end = state.flush_pending_host_calls(FlushEvent::BatchSettled, 5000);
    assert!(matches!(end, FlushStep::Done));
}

#[test]
fn a_flush_stops_at_the_deadline() {
    let mut state: HostState<usize> = HostState::new(&limits(8, 1));
    let late = state.flush_pending_host_calls(FlushEvent::Entered, 1000);
    assert!(matches!(late, FlushStep::Abort(ScriptError::Deadline)));
    let empty = state.flush_pending_host_calls(FlushEvent::Entered, 999);
    assert!(matches!(empty, FlushStep::Done));
    state.defer_call("a".to_string(), Value::Null, 0);
    let late = state.flush_pending_host_calls(FlushEvent::BatchSettled, 1000);
    assert!(matches!(late, FlushStep::Abort(ScriptError::Deadline)));
    assert_eq!(state.pending.len(), 1);
}

#[test]
fn calls_that_wait_are_not_counted_as_run() {
    let mut state: HostState<usize> = HostState::new(&limits(8, 2));
    assert!(state.begin_call(&tool("now"), 0).is_ok());
    for i in 0..3 {
        let (name, args) = state.begin_call(&tool("later"), 0).unwrap();
        state.defer_call(name, args, i);
    }
    assert_eq!((state.calls_made, state.calls_run()), (4, 1));
    state.flush_pending_host_calls(FlushEvent::Entered, 0);
    assert_eq!((state.calls_made, state.calls_run()), (4, 3));
    state.flush_pending_host_calls(FlushEvent::BatchSettled, 1000);
    assert_eq!((state.calls_made, state.calls_run()), (4, 3));
}

fn pending(name: &str, resolvers: usize) -> PendingCall<usize> {
    PendingCall { name: name.to_string(), args: Value::from(name), resolvers }
}

#[test]
fn each_call_of_a_batch_gets_its_own_result() {
    let batch = vec![pending("a", 7), pending("b", 8)];
    assert_eq!(
        batch_items(&batch),
        vec![
            ("a".to_string(), Value::from("a")),
            ("b".to_string(), Value::from("b")),
        ]
    );
    let out = replies(batch, vec![Value::from("x"), Value::Null]);
    assert_eq!(out, vec![(7, "\"x\"".to_string()), (8, "null".to_string())]);
    let out = replies(vec![pending("a", 7), pending("b", 8)], vec![Value::from(1)]);
    assert_eq!(out, vec![(7, "1".to_string())]);
    let out = replies(vec![pending("a", 7)], vec![Value::from(1), Value::from(2)]);
    assert_eq!(out, vec![(7, "1".to_string())]);
}
