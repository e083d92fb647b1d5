use codemode::batch::{dispatch_for, gather_results, Dispatch, WorkerOutcome};
use codemode::json::reply_text;
use serde_json::Value;

fn finished(slot: usize, text: &str) -> WorkerOutcome {
    WorkerOutcome::Finished { slot, value: Value::from(text) }
}

fn error(text: &str) -> Value {
    let expected = format!(
        "{{\"content\":[{{\"type\":\"text\",\"text\":\"{}\"}}],\"isError\":true}}",
        text
    );
    serde_json::from_str(&expected).unwrap()
}

#[test]
fn single_calls_need_no_thread() {
    assert_eq!(dispatch_for(0), Dispatch::Nothing);
    assert_eq!(dispatch_for(1), Dispatch::Inline);
    assert_eq!(dispatch_for(2), Dispatch::Threads);
    assert_eq!(dispatch_for(8), Dispatch::Threads);
}

#[test]
fn results_stand_in_the_order_of_the_calls() {
    let results = gather_results(2, vec![finished(0, "a"), finished(1, "b")]);
    assert_eq!(results, vec![Value::from("a"), Value::from("b")]);
    let results = gather_results(2, vec![finished(1, "b"), finished(0, "a")]);
    assert_eq!(results, vec![Value::from("a"), Value::from("b")]);
    assert_eq!(gather_results(0, vec![]), Vec::<Value>::new());
}

#[test]
fn a_panicked_worker_keeps_its_place() {
    let results = gather_results(
        3,
        vec![finished(0, "a"), WorkerOutcome::Panicked, finished(2, "c")],
    );
    assert_eq!(results[0], Value::from("a"));
    assert_eq!(results[1], error("Toolport: callAsync worker panicked"));
    assert_eq!(results[2], Value::from("c"));
}

#[test]
fn a_panic_too_many_changes_nothing() {
    let results = gather_results(1, vec![finished(0, "a"), WorkerOutcome::Panicked]);
    assert_eq!(results, vec![Value::from("a")]);
}

#[test]
fn a_call_of_which_nothing_is_heard_gets_an_error() {
    let results = gather_results(2, vec![finished(1, "b")]);
    assert_eq!(results[0], error("Toolport: callAsync worker missing result"));
    assert_eq!(results[1], Value::from("b"));
}

#[test]
fn error_results_are_written_in_the_order_of_their_keys() {
    let results = gather_results(2, vec![WorkerOutcome::Panicked]);
    assert_eq!(
        reply_text(&results[0]),
        r#"{"content":[{"text":"Toolport: callAsync worker panicked","type":"text"}],"isError":true}"#
    );
    assert_eq!(
        reply_text(&results[1]),
        r#"{"content":[{"text":"Toolport: callAsync worker missing result","type":"text"}],"isError":true}"#
    );
}
