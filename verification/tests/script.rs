//! Whole runs of scripts, with the script engine around the library.

use std::cell::RefCell;
use std::rc::Rc;
use std::sync::{Arc, Mutex};
use std::time::Instant;

use boa_engine::builtins::promise::{PromiseState, ResolvingFunctions};
use boa_engine::job::{GenericJob, Job, JobExecutor, PromiseJob};
use boa_engine::object::builtins::JsPromise;
use boa_engine::property::Attribute;
use boa_engine::{
    Context, JsError, JsNativeError, JsResult, JsString, JsValue, NativeFunction, Source,
};
use codemode::error::ScriptError;
use codemode::host::{batch_items, replies, FlushEvent, FlushStep, HostState};
use codemode::jobs::{BoundedJobExecutor, EngineJob, JobEvent, JobStep};
use codemode::json::reply_text;
use codemode::limits::NANOS_PER_SEC;
use codemode::run::{HostFn, RunAction, RunEvent, ScriptRun, Settlement};
use codemode::wire::{parse_fetch_args, script_text, ScriptArg};
use codemode::{FetchArgs, Limits, ScriptOutcome};
use serde_json::Value;

type CallBinding = Arc<dyn Fn(&str, Value) -> Value>;
type FetchBinding = Arc<dyn Fn(FetchArgs) -> Value>;

struct Executor {
    jobs: RefCell<BoundedJobExecutor<PromiseJob, GenericJob>>,
    started: Instant,
}

impl JobExecutor for Executor {
    fn enqueue_job(self: Rc<Self>, job: Job, _context: &mut Context) {
        let job = match job {
            Job::PromiseJob(p) => EngineJob::Promise(p),
            Job::GenericJob(g) => EngineJob::Generic(g),
            _ => EngineJob::Unsupported,
        };
        self.jobs.borrow_mut().enqueue_job(job);
    }

    fn run_jobs(self: Rc<Self>, context: &mut Context) -> JsResult<()> {
        let mut event = JobEvent::Entered;
        let mut thrown: Option<JsError> = None;
        loop {
            let elapsed = self.started.elapsed().as_nanos();
            let step = self.jobs.borrow_mut().run_jobs(event, elapsed);
            let result = match step {
                JobStep::RunPromise(job) => job.call(context),
                JobStep::RunGeneric(job) => job.call(context),
                JobStep::Drained => return Ok(()),
                JobStep::Abort(error) => return Err(native(&error)),
                JobStep::Rethrow => return Err(thrown.unwrap()),
            };
            event = match result {
                Ok(_) => {
                    context.clear_kept_objects();
                    JobEvent::Ran
                }
                Err(err) => {
                    thrown = Some(err);
                    JobEvent::Threw
                }
            };
        }
    }
}

/// What the host functions of one run share.
struct Host {
    call: CallBinding,
    fetch: Option<FetchBinding>,
    state: RefCell<HostState<ResolvingFunctions>>,
    batches: RefCell<Vec<usize>>,
    started: Instant,
}

fn native(error: &ScriptError) -> JsError {
    JsError::from_native(JsNativeError::error().with_message(error.message()))
}

fn script_args(args: &[JsValue]) -> Vec<ScriptArg> {
    args.iter()
        .map(|arg| match arg.as_string() {
            Some(text) => ScriptArg::Text(text.to_vec()),
            None => ScriptArg::Other,
        })
        .collect()
}

fn text_value(text: &str) -> JsValue {
    JsValue::from(JsString::from(text))
}

impl Host {
    fn elapsed(&self) -> u128 {
        self.started.elapsed().as_nanos()
    }

    fn call_now(&self, args: &[JsValue]) -> JsResult<JsValue> {
        let begun = self.state.borrow_mut().begin_call(&script_args(args), self.elapsed());
        let (name, document) = begun.map_err(|error| native(&error))?;
        let result = (self.call)(&name, document);
        Ok(text_value(&reply_text(&result)))
    }

    fn call_later(&self, args: &[JsValue], context: &mut Context) -> JsResult<JsValue> {
        let begun = self.state.borrow_mut().begin_call(&script_args(args), self.elapsed());
        let (name, document) = begun.map_err(|error| native(&error))?;
        let (promise, resolvers) = JsPromise::new_pending(context);
        self.state.borrow_mut().defer_call(name, document, resolvers);
        Ok(promise.into())
    }

    fn fetch_result(&self, args: &[JsValue]) -> JsResult<JsValue> {
        let asked = parse_fetch_args(self.fetch.is_some(), &script_args(args))
            .map_err(|error| native(&error))?;
        let fetch = self.fetch.as_ref().unwrap();
        Ok(text_value(&reply_text(&fetch(asked))))
    }

    fn flush(&self, context: &mut Context) -> RunEvent {
        let mut event = FlushEvent::Entered;
        loop {
            let elapsed = self.elapsed();
            let step = self.state.borrow_mut().flush_pending_host_calls(event, elapsed);
            let batch = match step {
                FlushStep::Done => return self.done(),
                FlushStep::Abort(error) => return RunEvent::Aborted(error),
                FlushStep::Run(batch) => batch,
            };
            self.batches.borrow_mut().push(batch.len());
            let results = batch_items(&batch)
                .into_iter()
                .map(|(name, args)| (self.call)(&name, args))
                .collect();
            for (resolvers, reply) in replies(batch, results) {
                let resolved = resolvers.resolve.call(
                    &JsValue::undefined(),
                    &[text_value(&reply)],
                    context,
                );
                if let Err(err) = resolved {
                    return RunEvent::Threw(err.to_string());
                }
            }
            event = FlushEvent::BatchSettled;
        }
    }

    fn done(&self) -> RunEvent {
        RunEvent::Done { pending: !self.state.borrow().pending.is_empty() }
    }
}

fn observe(top: &JsValue, context: &mut Context) -> Settlement {
    let promise = match top.as_object().map(|object| JsPromise::from_object(object.clone())) {
        Some(Ok(promise)) => promise,
        _ => return Settlement::Plain(top.to_json(context).ok().flatten()),
    };
    match promise.state() {
        PromiseState::Pending => Settlement::Pending,
        PromiseState::Fulfilled(value) => {
            Settlement::Fulfilled(value.to_json(context).ok().flatten())
        }
        PromiseState::Rejected(reason) => Settlement::Rejected(match reason.to_string(context) {
            Ok(text) => script_text(&text.to_vec()),
            Err(_) => reason.display().to_string(),
        }),
    }
}

struct Ran {
    outcome: ScriptOutcome,
    batches: Vec<usize>,
}

fn run_script(
    script: &str,
    data: Value,
    call: CallBinding,
    fetch: Option<FetchBinding>,
    limits: Limits,
    catalog: &[String],
) -> Ran {
    let started = Instant::now();
    let host: &'static Host = Box::leak(Box::new(Host {
        call,
        fetch,
        state: RefCell::new(HostState::new(&limits)),
        batches: RefCell::new(Vec::new()),
        started,
    }));
    let executor = Rc::new(Executor {
        jobs: RefCell::new(BoundedJobExecutor::new(limits.wall_clock, limits.max_promise_jobs)),
        started,
    });
    let mut context = Context::builder().job_executor(executor).build().unwrap();
    context.runtime_limits_mut().set_loop_iteration_limit(limits.loop_iteration_limit);
    context.runtime_limits_mut().set_recursion_limit(limits.recursion_limit);

    let mut run = ScriptRun::new(script, catalog);
    let mut top = JsValue::undefined();
    let mut event = host.done();
    loop {
        let calls = host.state.borrow().calls_run();
        let refused = host.state.borrow().refused.clone();
        event = match run.step(event, calls, refused) {
            RunAction::Register(function) => {
                let body = match function {
                    HostFn::Call => {
                        NativeFunction::from_copy_closure(move |_, args, _| host.call_now(args))
                    }
                    HostFn::CallAsync => NativeFunction::from_copy_closure(move |_, args, ctx| {
                        host.call_later(args, ctx)
                    }),
                    HostFn::FetchResult => {
                        NativeFunction::from_copy_closure(move |_, args, _| host.fetch_result(args))
                    }
                };
                let registered = context.register_global_callable(
                    JsString::from(function.global_name()),
                    function.arity(),
                    body,
                );
                match registered {
                    Ok(()) => host.done(),
                    Err(err) => RunEvent::Threw(err.to_string()),
                }
            }
            RunAction::InjectData => {
                let injected = JsValue::from_json(&data, &mut context).and_then(|value| {
                    context.register_global_property(
                        JsString::from("data"),
                        value,
                        Attribute::all(),
                    )
                });
                match injected {
                    Ok(()) => host.done(),
                    Err(err) => RunEvent::Threw(err.to_string()),
                }
            }
            RunAction::Eval(code) => match context.eval(Source::from_bytes(code.as_bytes())) {
                Ok(_) => host.done(),
                Err(err) => RunEvent::Threw(err.to_string()),
            },
            RunAction::Start(code) => match context.eval(Source::from_bytes(code.as_bytes())) {
                Ok(value) => {
                    top = value;
                    host.done()
                }
                Err(err) => RunEvent::Threw(err.to_string()),
            },
            RunAction::Flush => host.flush(&mut context),
            RunAction::RunJobs => match context.run_jobs() {
                Ok(()) => host.done(),
                Err(err) => RunEvent::Threw(err.to_string()),
            },
            RunAction::Observe => RunEvent::Observed(observe(&top, &mut context)),
            RunAction::Finish(outcome) => {
                return Ran { outcome, batches: host.batches.borrow().clone() };
            }
            RunAction::Nothing => panic!("the run waits for something else"),
        };
    }
}

fn json(text: &str) -> Value {
    serde_json::from_str(text).unwrap()
}

fn echo(name: &str, args: Value) -> Value {
    let mut object = serde_json::Map::new();
    object.insert("echo".to_string(), Value::from(name));
    object.insert("args".to_string(), args);
    Value::Object(object)
}

fn recording_call(log: Arc<Mutex<Vec<(String, Value)>>>) -> CallBinding {
    Arc::new(move |name: &str, args: Value| {
        log.lock().unwrap().push((name.to_string(), args.clone()));
        echo(name, args)
    })
}

fn no_call() -> CallBinding {
    Arc::new(|_: &str, _: Value| Value::Null)
}

fn empty_call() -> CallBinding {
    Arc::new(|_: &str, _: Value| Value::Object(serde_json::Map::new()))
}

fn run(script: &str, data: Value, call: CallBinding, limits: Limits) -> ScriptOutcome {
    run_script(script, data, call, None, limits, &[]).outcome
}

#[test]
fn runs_a_plain_script_and_returns_its_value() {
    let out = run("return 1 + 2;", json("{}"), no_call(), Limits::default());
    assert_eq!(out.error, None, "unexpected error: {:?}", out.error);
    assert_eq!(out.value, json("3"));
    assert_eq!(out.calls, 0);
}

#[test]
fn toolport_call_reaches_the_binding_and_data_is_injected() {
    let log = Arc::new(Mutex::new(Vec::new()));
    let call = recording_call(log.clone());
    let script = r#"
            var out = [];
            for (var i = 0; i < data.ids.length; i++) {
                var r = toolport.call("lookup", { id: data.ids[i] });
                out.push(r.args.id);
            }
            return out;
        "#;
    let out = run(script, json(r#"{"ids": [10, 20, 30]}"#), call, Limits::default());
    assert_eq!(out.error, None, "unexpected error: {:?}", out.error);
    assert_eq!(out.value, json("[10, 20, 30]"));
    assert_eq!(out.calls, 3);
    let log = log.lock().unwrap();
    assert_eq!(log.len(), 3);
    assert_eq!(log[0].0, "lookup");
    assert_eq!(log[1].1, json(r#"{"id": 20}"#));
}

#[test]
fn call_budget_is_enforced() {
    let limits = Limits { max_calls: 2, ..Limits::default() };
    let out = run(
        "for (var i = 0; i < 10; i++) { toolport.call('t', {}); } return 'done';",
        json("{}"),
        empty_call(),
        limits,
    );
    // It made exactly the budgeted calls, then errored instead of finishing.
    assert_eq!(out.calls, 2);
    assert_ne!(out.error, None);
    assert!(out.error.unwrap().contains("budget"));
}

#[test]
fn loop_limit_stops_pure_js_runaway() {
    let limits = Limits { loop_iteration_limit: 1000, ..Limits::default() };
    let out = run("while (true) {} return 1;", json("{}"), no_call(), limits);
    assert_ne!(out.error, None, "an infinite loop must be stopped");
    assert_eq!(out.calls, 0);
}

#[test]
fn a_thrown_error_is_reported_not_panicked() {
    let out = run("throw new Error('boom');", json("{}"), no_call(), Limits::default());
    assert!(out.error.unwrap().contains("boom"));
}

#[test]
fn syntax_error_fails_closed() {
    let out = run("this is not valid )(", json("{}"), no_call(), Limits::default());
    assert_ne!(out.error, None);
    assert_eq!(out.calls, 0);
}

#[test]
fn call_async_with_await_returns_result() {
    let log = Arc::new(Mutex::new(Vec::new()));
    let call = recording_call(log.clone());
    let script = r#"
            const a = await toolport.callAsync("lookup", { id: 7 });
            return a.args.id;
        "#;
    let out = run(script, json("{}"), call, Limits::default());
    assert_eq!(out.error, None, "unexpected error: {:?}", out.error);
    assert_eq!(out.value, json("7"));
    assert_eq!(out.calls, 1);
}

#[test]
fn promise_all_fans_out_and_preserves_order() {
    let log = Arc::new(Mutex::new(Vec::new()));
    let call = recording_call(log.clone());
    let script = r#"
            const results = await Promise.all([
                toolport.callAsync("a", { n: 1 }),
                toolport.callAsync("b", { n: 2 }),
                toolport.callAsync("c", { n: 3 }),
            ]);
            return results.map(function (r) { return r.echo + ":" + r.args.n; });
        "#;
    let out = run(script, json("{}"), call, Limits::default());
    assert_eq!(out.error, None, "unexpected error: {:?}", out.error);
    assert_eq!(out.value, json(r#"["a:1", "b:2", "c:3"]"#));
    assert_eq!(out.calls, 3);
    let names: Vec<String> = log.lock().unwrap().iter().map(|(n, _)| n.clone()).collect();
    assert_eq!(names.len(), 3);
    assert!(names.contains(&"a".to_string()));
    assert!(names.contains(&"b".to_string()));
    assert!(names.contains(&"c".to_string()));
}

#[test]
fn call_all_sugar_matches_promise_all() {
    let script = r#"
            const results = await toolport.callAll([
                { name: "x", args: { i: 1 } },
                { name: "y", args: { i: 2 } },
            ]);
            return results.map(function (r) { return r.echo + r.args.i; }).join(",");
        "#;
    let out = run(script, json("{}"), Arc::new(echo), Limits::default());
    assert_eq!(out.error, None, "unexpected error: {:?}", out.error);
    assert_eq!(out.value, json(r#""x1,y2""#));
    assert_eq!(out.calls, 2);
}

#[test]
fn call_async_budget_is_enforced() {
    let limits = Limits { max_calls: 2, ..Limits::default() };
    let out = run(
        r#"
                await Promise.all([
                    toolport.callAsync("a", {}),
                    toolport.callAsync("b", {}),
                    toolport.callAsync("c", {}),
                ]);
                return "done";
            "#,
        json("{}"),
        empty_call(),
        limits,
    );
    assert_eq!(out.calls, 2);
    assert_ne!(out.error, None);
    assert!(out.error.unwrap().contains("budget"));
}

#[test]
fn deferred_calls_run_in_batches() {
    let limits = Limits {
        max_parallel: 2,
        wall_clock: 10 * NANOS_PER_SEC,
        ..Limits::default()
    };
    let ran = run_script(
        r#"
                return await Promise.all([
                    toolport.callAsync("a", {}),
                    toolport.callAsync("b", {}),
                    toolport.callAsync("c", {}),
                    toolport.callAsync("d", {}),
                    toolport.callAsync("e", {}),
                ]);
            "#,
        json("{}"),
        empty_call(),
        None,
        limits,
        &[],
    );
    assert_eq!(ran.outcome.error, None);
    assert_eq!(ran.outcome.calls, 5);
    assert_eq!(ran.batches, vec![2, 2, 1]);
}

#[test]
fn servers_stub_calls_through_with_snake_and_camel() {
    let log = Arc::new(Mutex::new(Vec::new()));
    let call = recording_call(log.clone());
    let catalog = vec![
        "stripe__create_refund".to_string(),
        "github__create_pull_request".to_string(),
    ];
    let script = r#"
            const a = servers.stripe.create_refund({ id: "ch_1" });
            const b = servers.stripe.createRefund({ id: "ch_2" });
            const c = servers.github.createPullRequest({ title: "t" });
            return {
                tools: toolport.listTools().sort(),
                servers: toolport.listServers().sort(),
                names: [a.echo, b.echo, c.echo],
                ids: [a.args.id, b.args.id],
                title: c.args.title,
            };
        "#;
    let out = run_script(script, json("{}"), call, None, Limits::default(), &catalog).outcome;
    assert_eq!(out.error, None, "unexpected error: {:?}", out.error);
    assert_eq!(out.calls, 3);
    assert_eq!(
        out.value["names"],
        json(
            r#"["stripe__create_refund", "stripe__create_refund", "github__create_pull_request"]"#
        )
    );
    assert_eq!(out.value["ids"], json(r#"["ch_1", "ch_2"]"#));
    assert_eq!(out.value["title"], json(r#""t""#));
    assert_eq!(
        out.value["tools"],
        json(r#"["github__create_pull_request", "stripe__create_refund"]"#)
    );
    assert_eq!(out.value["servers"], json(r#"["github", "stripe"]"#));
    let log = log.lock().unwrap();
    assert_eq!(log[0].0, "stripe__create_refund");
    assert_eq!(log[2].0, "github__create_pull_request");
}

#[test]
fn servers_stub_async_fans_out() {
    let log = Arc::new(Mutex::new(Vec::new()));
    let call = recording_call(log.clone());
    let catalog = vec![
        "stripe__create_refund".to_string(),
        "resend__send_email".to_string(),
    ];
    let script = r#"
            const results = await Promise.all([
                servers.stripe.createRefund.async({ id: 1 }),
                servers.resend.send_email.async({ to: "a@b.c" }),
            ]);
            return results.map(function (r) { return r.echo; }).sort();
        "#;
    let out = run_script(script, json("{}"), call, None, Limits::default(), &catalog).outcome;
    assert_eq!(out.error, None, "unexpected error: {:?}", out.error);
    assert_eq!(out.calls, 2);
    assert_eq!(out.value, json(r#"["resend__send_email", "stripe__create_refund"]"#));
}

#[test]
fn empty_catalog_still_exposes_empty_servers() {
    let out = run(
        "return { tools: toolport.listTools(), servers: toolport.listServers(), has: typeof servers };",
        json("{}"),
        no_call(),
        Limits::default(),
    );
    assert_eq!(out.error, None, "unexpected error: {:?}", out.error);
    assert_eq!(out.value["tools"], json("[]"));
    assert_eq!(out.value["servers"], json("[]"));
    assert_eq!(out.value["has"], json(r#""object""#));
}

#[test]
fn camel_alias_does_not_clobber_sibling_tool() {
    // If both create_refund and createRefund exist as distinct tools, keep both.
    let log = Arc::new(Mutex::new(Vec::new()));
    let call = recording_call(log.clone());
    let catalog = vec!["s__create_refund".to_string(), "s__createRefund".to_string()];
    let script = r#"
            return {
                a: servers.s.create_refund({}).echo,
                b: servers.s.createRefund({}).echo,
            };
        "#;
    let out = run_script(script, json("{}"), call, None, Limits::default(), &catalog).outcome;
    assert_eq!(out.error, None, "unexpected error: {:?}", out.error);
    assert_eq!(out.value["a"], json(r#""s__create_refund""#));
    assert_eq!(out.value["b"], json(r#""s__createRefund""#));
}

#[test]
fn first_tool_with_an_alias_gets_it() {
    let catalog = vec!["s__a_b".to_string(), "s__a__b".to_string()];
    let out = run_script(
        "return [servers.s.aB.toolName, servers.s.a_b.toolName, servers.s.a__b.toolName];",
        json("{}"),
        no_call(),
        None,
        Limits::default(),
        &catalog,
    )
    .outcome;
    assert_eq!(out.error, None, "unexpected error: {:?}", out.error);
    assert_eq!(out.value, json(r#"["s__a__b", "s__a_b", "s__a__b"]"#));
}

#[test]
fn servers_hold_their_tools_and_aliases_and_nothing_else() {
    let catalog = vec![
        "s__send_mail".to_string(),
        "s__2_fast".to_string(),
        "s__send_mail".to_string(),
        "t__x".to_string(),
        "nosep".to_string(),
        "__x".to_string(),
    ];
    let out = run_script(
        "return [Object.keys(servers), Object.keys(servers.s), toolport.listTools()];",
        json("{}"),
        no_call(),
        None,
        Limits::default(),
        &catalog,
    )
    .outcome;
    assert_eq!(out.error, None, "unexpected error: {:?}", out.error);
    assert_eq!(out.value[0], json(r#"["s", "t"]"#));
    assert_eq!(out.value[1], json(r#"["2_fast", "2Fast", "send_mail", "sendMail"]"#));
    assert_eq!(out.value[2], json(r#"["s__2_fast", "s__send_mail", "t__x"]"#));
}

#[test]
fn odd_names_reach_the_binding_unchanged() {
    let log = Arc::new(Mutex::new(Vec::new()));
    let call = recording_call(log.clone());
    let tool = "it's \\ a\nodd\r\u{2028}\u{2029} tool \u{1F600}";
    let catalog = vec![format!("s__{}", tool)];
    let out = run_script(
        "return servers.s[Object.keys(servers.s)[0]]({}).echo;",
        json("{}"),
        call,
        None,
        Limits::default(),
        &catalog,
    )
    .outcome;
    assert_eq!(out.error, None, "unexpected error: {:?}", out.error);
    assert_eq!(out.value, Value::from(format!("s__{}", tool)));
    assert_eq!(log.lock().unwrap()[0].0, format!("s__{}", tool));
}

#[test]
fn fetch_result_binding_pages_shaped_cursor() {
    // A stored result behind the fetch binding.
    let full = "abcdefghijklmnopqrstuvwxyz";
    let fetch: FetchBinding = Arc::new(move |args: FetchArgs| {
        assert_eq!(args.cursor, "r1");
        let start = args.offset.min(full.len());
        let end = if args.len == 0 {
            full.len()
        } else {
            start.saturating_add(args.len).min(full.len())
        };
        json(&format!(
            "{{\"content\": [{{ \"type\": \"text\", \"text\": \"{}\" }}], \"isError\": false}}",
            &full[start..end]
        ))
    });
    let out = run_script(
        r#"
                const a = toolport.fetchResult({ cursor: "r1", offset: 0, len: 5 });
                const b = toolport.fetchResult({ cursor: "r1", offset: 5, len: 5 });
                return { a: a.content[0].text, b: b.content[0].text };
            "#,
        json("{}"),
        no_call(),
        Some(fetch),
        Limits::default(),
        &[],
    )
    .outcome;
    assert_eq!(out.error, None, "unexpected error: {:?}", out.error);
    assert_eq!(out.value["a"], json(r#""abcde""#));
    assert_eq!(out.value["b"], json(r#""fghij""#));
}

#[test]
fn fetch_result_unavailable_without_binding() {
    let out = run(
        r#"return toolport.fetchResult({ cursor: "r1" });"#,
        json("{}"),
        no_call(),
        Limits::default(),
    );
    assert_ne!(out.error, None);
    assert!(out.error.unwrap().contains("unavailable"));
}

#[test]
fn self_requeuing_promise_jobs_hit_budget() {
    // Unbounded chains of promise jobs must not pin the drain forever.
    let limits = Limits {
        max_promise_jobs: 50,
        wall_clock: 5 * NANOS_PER_SEC,
        ..Limits::default()
    };
    let out = run(
        r#"
                let n = 0;
                function loop() {
                    n += 1;
                    return Promise.resolve().then(loop);
                }
                loop();
                return new Promise(function () {}); // never settles
            "#,
        json("{}"),
        no_call(),
        limits,
    );
    assert_ne!(out.error, None, "expected promise-job budget error");
    let err = out.error.unwrap();
    assert!(
        err.contains("promise-job budget") || err.contains("wall-clock"),
        "unexpected error: {err}"
    );
}

#[test]
fn a_promise_that_nothing_settles_is_reported() {
    let out = run(
        "return new Promise(function () {});",
        json("{}"),
        no_call(),
        Limits::default(),
    );
    assert_eq!(
        out.error,
        Some(
            "Error: toolport script hung on an unresolved Promise (no pending tool calls)"
                .to_string()
        )
    );
    assert_eq!(out.value, Value::Null);
}

#[test]
fn a_reason_that_is_no_string_is_shown() {
    let out = run("throw Symbol('why');", json("{}"), no_call(), Limits::default());
    let error = out.error.unwrap();
    assert!(error.starts_with("Error: Uncaught ") && error.contains("why"), "{error}");
    let out = run("throw 'plain';", json("{}"), no_call(), Limits::default());
    assert_eq!(out.error, Some("Error: Uncaught plain".to_string()));
}

#[test]
fn a_reason_that_holds_itself_is_given_as_a_string() {
    let script = "const a = []; a.push(Promise.resolve(a)); throw a;";
    let out = run(script, json("{}"), no_call(), Limits::default());
    assert_eq!(out.error, Some("Error: Uncaught [object Promise]".to_string()));
}

#[test]
fn a_refusal_that_the_script_catches_is_an_error_still() {
    let limits = Limits { max_calls: 0, ..Limits::default() };
    let out = run(
        "try { toolport.call('t', {}); } catch (e) {} return 1;",
        json("{}"),
        empty_call(),
        limits,
    );
    assert_eq!(out.error, Some("Error: toolport.call budget exceeded (0 calls)".to_string()));
    assert_eq!((out.value, out.calls), (Value::Null, 0));
    let limits = Limits { max_calls: 1, ..Limits::default() };
    let out = run(
        "await toolport.callAsync('a'); try { await toolport.callAsync('b'); } catch (e) {} return 1;",
        json("{}"),
        empty_call(),
        limits,
    );
    assert_eq!(out.error, Some("Error: toolport.call budget exceeded (1 calls)".to_string()));
    assert_eq!(out.calls, 1);
}

#[test]
fn only_calls_that_were_run_are_counted() {
    let log = Arc::new(Mutex::new(Vec::new()));
    let limits = Limits { max_parallel: 1, wall_clock: NANOS_PER_SEC, ..Limits::default() };
    let seen = log.clone();
    let call: CallBinding = Arc::new(move |name: &str, _: Value| {
        seen.lock().unwrap().push(name.to_string());
        let begun = Instant::now();
        while begun.elapsed().as_nanos() < 2 * NANOS_PER_SEC {}
        Value::Null
    });
    let out = run(
        "return await Promise.all([toolport.callAsync('a'), toolport.callAsync('b')]);",
        json("{}"),
        call,
        limits,
    );
    assert_eq!(
        out.error,
        Some("Error: toolport script wall-clock deadline exceeded".to_string())
    );
    assert_eq!(log.lock().unwrap().as_slice(), ["a".to_string()]);
    assert_eq!(out.calls, 1);
}

#[test]
fn a_script_may_use_up_its_job_budget() {
    let script = "await null; return 1;";
    let jobs = (1..20)
        .find(|&jobs| {
            let limits = Limits { max_promise_jobs: jobs, ..Limits::default() };
            run(script, json("{}"), no_call(), limits).error.is_none()
        })
        .unwrap();
    assert_eq!(jobs, 1);
}

#[test]
fn an_alias_need_not_be_an_identifier() {
    let catalog = vec!["s__get-a_b".to_string(), "s___".to_string()];
    let out = run_script(
        "return [Object.keys(servers.s), servers.s['get-aB'].toolName];",
        json("{}"),
        no_call(),
        None,
        Limits::default(),
        &catalog,
    )
    .outcome;
    assert_eq!(out.error, None, "unexpected error: {:?}", out.error);
    assert_eq!(out.value[0], json(r#"["_", "get-a_b", "get-aB"]"#));
    assert_eq!(out.value[1], json(r#""s__get-a_b""#));
}

#[test]
fn a_run_without_time_ends_at_the_deadline() {
    let limits = Limits { wall_clock: 0, ..Limits::default() };
    let out = run("return 1;", json("{}"), no_call(), limits);
    assert_eq!(
        out.error,
        Some("Error: toolport script wall-clock deadline exceeded".to_string())
    );
}
