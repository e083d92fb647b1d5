//! The run of a script: what the engine is asked to do, in which order, and how the run ends.

use serde_json::Value;
use vstd::prelude::*;

use crate::catalog::listing;
use crate::error::ScriptError;
use crate::json::json_text;
use crate::json::null_value;
use crate::outcome::aborted;
use crate::outcome::completed;
use crate::outcome::fail;
use crate::outcome::ScriptOutcome;
use crate::stubs::build_servers_prelude;
use crate::stubs::prelude_text;

verus! {

/// The code that gives a script its `toolport` object. The functions of the object go through
/// the host functions of [`HostFn`].
pub const PRELUDE: &'static str = r#"
globalThis.toolport = {
    call: function (name, args) {
        var payload = (args === undefined || args === null) ? {} : args;
        return JSON.parse(__toolport_call(String(name), JSON.stringify(payload)));
    },
    callAsync: function (name, args) {
        var payload = (args === undefined || args === null) ? {} : args;
        return __toolport_call_async(String(name), JSON.stringify(payload)).then(function (raw) {
            return JSON.parse(raw);
        });
    },
    callAll: function (items) {
        if (!Array.isArray(items)) {
            return Promise.reject(new TypeError("toolport.callAll expects an array of {name, args}"));
        }
        return Promise.all(items.map(function (item) {
            var name = item && item.name;
            var args = item && item.args;
            return toolport.callAsync(name, args);
        }));
    },
    // Page a shaped result by cursor (same stash as toolport_fetch_result). Prefer
    // projecting / filtering full intermediate tool results in-script instead; this
    // is for cursors handed in via `data` or left from a prior shaped agent turn.
    fetchResult: function (opts) {
        opts = (opts === undefined || opts === null) ? {} : opts;
        return JSON.parse(__toolport_fetch_result(JSON.stringify({
            cursor: opts.cursor,
            offset: opts.offset,
            len: opts.len,
            projection: opts.projection
        })));
    },
    listTools: function () { return []; },
    listServers: function () { return []; },
};
"#;

/// How many rounds of flushing calls and running jobs a run may take.
pub const MAX_DRIVE_ITERS: usize = 1_000_000;

/// A function of the host that scripts can call.
#[derive(Debug, Clone, Copy, PartialEq, Eq, Structural)]
pub enum HostFn {
    /// Calls a tool and waits for its result.
    Call,
    /// Defers a call of a tool and gives a promise of its result.
    CallAsync,
    /// Fetches a part of an earlier result.
    FetchResult,
}

impl HostFn {
    /// The name of the function among the globals.
    pub open spec fn name(self) -> Seq<char> {
        match self {
            HostFn::Call => "__toolport_call"@,
            HostFn::CallAsync => "__toolport_call_async"@,
            HostFn::FetchResult => "__toolport_fetch_result"@,
        }
    }

    /// The name of the function among the globals.
    pub fn global_name(&self) -> (name: &'static str)
        ensures
            name@ == self.name(),
    {
        match self {
            HostFn::Call => "__toolport_call",
            HostFn::CallAsync => "__toolport_call_async",
            HostFn::FetchResult => "__toolport_fetch_result",
        }
    }

    /// How many arguments the function takes.
    pub fn arity(&self) -> (n: usize)
        ensures
            n == (if *self == HostFn::FetchResult {
                1int
            } else {
                2int
            }),
    {
        match self {
            HostFn::Call => 2,
            HostFn::CallAsync => 2,
            HostFn::FetchResult => 1,
        }
    }
}

/// The code of a script inside an async function that is called at once, so that the script
/// can use `return` and `await`.
pub open spec fn wrapped(script: Seq<char>) -> Seq<char> {
    "(async function () {\n"@ + script + "\n})()"@
}

/// Wraps a script in an async function that is called at once.
pub fn wrap_script(script: &str) -> (source: String)
    ensures
        source@ == wrapped(script@),
{
    let mut source: String = "(async function () {\n".to_owned();
    source.append(script);
    source.append("\n})()");
    source
}

/// What has become of the value that the script's code gave.
pub enum Settlement {
    /// It is no promise, and this is it as JSON, if it can be written so.
    Plain(Option<Value>),
    /// It is a promise that waits.
    Pending,
    /// It is a promise that was kept, with this value as JSON, if it can be written so.
    Fulfilled(Option<Value>),
    /// It is a promise that was broken, for a reason of which this is the text: the reason as a
    /// string, or, where it cannot be made one, as the engine displays it.
    Rejected(String),
}

impl Settlement {
    /// The value with which the script ends, as JSON text, if it ends with one.
    pub open spec fn value_text(self) -> Option<Seq<char>> {
        match self {
            Settlement::Plain(value) | Settlement::Fulfilled(value) => match value {
                Some(value) => Some(json_text(value)),
                None => Some("null"@),
            },
            _ => None,
        }
    }

    /// The error with which the script ends, if it ends with one.
    pub open spec fn failure(self) -> Option<ScriptError> {
        match self {
            Settlement::Pending => Some(ScriptError::Hung),
            Settlement::Rejected(reason) => Some(ScriptError::Rejected(reason)),
            _ => None,
        }
    }
}

/// How a script ends once no call and no job is left. A promise that waits then is one that
/// nothing will settle. A value that cannot be written as JSON counts as `null`.
pub fn settle(settlement: Settlement) -> (end: Result<Value, ScriptError>)
    ensures
        match end {
            Ok(value) => settlement.value_text() == Some(json_text(value)),
            Err(error) => settlement.failure() == Some(error),
        },
        match settlement {
            Settlement::Plain(Some(value)) | Settlement::Fulfilled(Some(value)) => end is Ok
                && json_text(end->Ok_0) == json_text(value),
            Settlement::Plain(None) | Settlement::Fulfilled(None) => end is Ok && json_text(
                end->Ok_0,
            ) == "null"@,
            Settlement::Pending => end == Err::<Value, ScriptError>(ScriptError::Hung),
            Settlement::Rejected(reason) => end == Err::<Value, ScriptError>(
                ScriptError::Rejected(reason),
            ),
        },
{
    match settlement {
        Settlement::Plain(value) => Ok(value_or_null(value)),
        Settlement::Pending => Err(ScriptError::Hung),
        Settlement::Fulfilled(value) => Ok(value_or_null(value)),
        Settlement::Rejected(reason) => Err(ScriptError::Rejected(reason)),
    }
}

fn value_or_null(value: Option<Value>) -> (given: Value)
    ensures
        json_text(given) == match value {
            Some(value) => json_text(value),
            None => "null"@,
        },
{
    match value {
        Some(value) => value,
        None => null_value(),
    }
}

/// What a run waits for.
#[derive(Debug, Clone, Copy, PartialEq, Eq, Structural)]
pub enum Stage {
    /// To be begun.
    Created,
    /// A host function to be made known to the engine.
    Registering(HostFn),
    /// The data of the script to be made known to the engine.
    Injecting,
    /// The code of the `toolport` object to be run.
    Preluding,
    /// The code of the `servers` object to be run.
    Stubbing,
    /// The code of the script to be run.
    Starting,
    /// The deferred calls to be flushed.
    Flushing,
    /// The jobs of the engine to be run.
    Draining,
    /// The value of the script to be looked at.
    Observing,
    /// Nothing: the run is over.
    Over,
}

/// What happened last in a run.
pub enum RunEvent {
    /// What was asked for is done, or the run is to begin. Whether there are deferred calls now
    /// goes with it.
    Done { pending: bool },
    /// The value of the script was looked at.
    Observed(Settlement),
    /// The engine gave an error, of which this is the text.
    Threw(String),
    /// The library ended the script.
    Aborted(ScriptError),
}

/// What is to be done next in a run.
pub enum RunAction {
    /// Make this host function known to the engine.
    Register(HostFn),
    /// Make the data of the script known to the engine.
    InjectData,
    /// Run this code and forget its value.
    Eval(String),
    /// Run this code and keep its value: it is the value of the script.
    Start(String),
    /// Flush the deferred calls.
    Flush,
    /// Run the jobs of the engine.
    RunJobs,
    /// Look at the value of the script.
    Observe,
    /// The run is over, with this outcome.
    Finish(ScriptOutcome),
    /// Nothing: the event is no answer to what was asked for.
    Nothing,
}

/// One run of a script.
pub struct ScriptRun {
    pub stage: Stage,
    /// How many rounds the run has taken.
    pub rounds: usize,
    /// The code of the `servers` object.
    pub stubs: String,
    /// The code of the script.
    pub source: String,
}

impl ScriptRun {
    /// The run takes no more rounds than it may.
    pub open spec fn wf(self) -> bool {
        self.rounds <= MAX_DRIVE_ITERS
    }

    /// The stage that follows when one more round is to be taken.
    pub open spec fn next_round(self) -> Stage {
        if self.rounds < MAX_DRIVE_ITERS {
            Stage::Flushing
        } else {
            Stage::Over
        }
    }

    /// The stage after what was asked for is done.
    pub open spec fn advanced(self, pending: bool) -> Stage {
        match self.stage {
            Stage::Created => Stage::Registering(HostFn::Call),
            Stage::Registering(HostFn::Call) => Stage::Registering(HostFn::CallAsync),
            Stage::Registering(HostFn::CallAsync) => Stage::Registering(HostFn::FetchResult),
            Stage::Registering(HostFn::FetchResult) => Stage::Injecting,
            Stage::Injecting => Stage::Preluding,
            Stage::Preluding => Stage::Stubbing,
            Stage::Stubbing => Stage::Starting,
            Stage::Starting => self.next_round(),
            Stage::Flushing => Stage::Draining,
            Stage::Draining => if pending {
                self.next_round()
            } else {
                Stage::Observing
            },
            Stage::Observing => Stage::Observing,
            Stage::Over => Stage::Over,
        }
    }

    /// The stage after an event.
    pub open spec fn successor(self, event: RunEvent) -> Stage {
        match event {
            RunEvent::Done { pending } => self.advanced(pending),
            RunEvent::Observed(_) => if self.stage == Stage::Observing {
                Stage::Over
            } else {
                self.stage
            },
            RunEvent::Threw(_) => Stage::Over,
            RunEvent::Aborted(_) => Stage::Over,
        }
    }

    /// Whether a run becomes another by a step on an event. A run that is over stays as it is;
    /// else the stage is the one that follows, and a round is counted when its flush is asked
    /// for.
    pub open spec fn moves(self, event: RunEvent, after: Self) -> bool {
        if self.stage == Stage::Over {
            after == self
        } else {
            &&& after.stage == self.successor(event)
            &&& after.rounds == self.rounds + if after.stage == Stage::Flushing && self.stage
                != Stage::Flushing {
                1int
            } else {
                0int
            }
            &&& after.stubs == self.stubs
            &&& after.source == self.source
        }
    }

    /// Whether an action asks for what a run at this stage waits for.
    pub open spec fn asks(self, action: RunAction) -> bool {
        match self.stage {
            Stage::Registering(host) => action == RunAction::Register(host),
            Stage::Injecting => action == RunAction::InjectData,
            Stage::Preluding => action matches RunAction::Eval(code) && code@ == PRELUDE@,
            Stage::Stubbing => action matches RunAction::Eval(code) && code@ == self.stubs@,
            Stage::Starting => action matches RunAction::Start(code) && code@ == self.source@,
            Stage::Flushing => action == RunAction::Flush,
            Stage::Draining => action == RunAction::RunJobs,
            Stage::Observing => action == RunAction::Observe,
            Stage::Created | Stage::Over => false,
        }
    }

    /// Whether a run that is not over ends with this outcome on an event. A script that was
    /// refused a call does not end well, though it may have caught the refusal.
    pub open spec fn ends_with(
        self,
        event: RunEvent,
        calls: usize,
        refused: Option<ScriptError>,
        outcome: ScriptOutcome,
    ) -> bool {
        match event {
            RunEvent::Done { .. } => outcome.fails_by(calls, ScriptError::DriveBudget),
            RunEvent::Observed(settlement) => match settlement.failure() {
                Some(error) => outcome.fails_by(calls, error),
                None => match refused {
                    Some(error) => outcome.fails_by(calls, error),
                    None => {
                        &&& outcome.error is None
                        &&& outcome.calls == calls
                        &&& settlement.value_text() == Some(json_text(outcome.value))
                    },
                },
            },
            RunEvent::Threw(text) => outcome.fails_with(calls, text@),
            RunEvent::Aborted(error) => outcome.fails_by(calls, error),
        }
    }

    /// A run of a script over the tools of a catalog, to be begun.
    pub fn new(script: &str, catalog: &[String]) -> (run: Self)
        ensures
            run.wf(),
            run.stage == Stage::Created,
            run.rounds == 0,
            run.stubs@ == prelude_text(listing(catalog@)),
            run.source@ == wrapped(script@),
    {
        ScriptRun {
            stage: Stage::Created,
            rounds: 0,
            stubs: build_servers_prelude(catalog),
            source: wrap_script(script),
        }
    }

    /// Decides what a run does after an event, when so many calls of the script have been run,
    /// and the script was refused a call for this reason, if it was refused one.
    pub fn step(&mut self, event: RunEvent, calls: usize, refused: Option<ScriptError>) -> (action:
        RunAction)
        ensures
            old(self).moves(event, *final(self)),
            old(self).wf() ==> final(self).wf(),
            if old(self).stage == Stage::Over {
                action == RunAction::Nothing
            } else if final(self).stage == Stage::Over {
                action matches RunAction::Finish(outcome) && old(self).ends_with(
                    event,
                    calls,
                    refused,
                    outcome,
                )
            } else if final(self).stage == old(self).stage {
                action == RunAction::Nothing
            } else {
                final(self).asks(action)
            },
    {
        if let Stage::Over = self.stage {
            return RunAction::Nothing;
        }
        match event {
            RunEvent::Done { pending } => self.advance(pending, calls),
            RunEvent::Observed(settlement) => {
                if self.stage != Stage::Observing {
                    return RunAction::Nothing;
                }
                self.stage = Stage::Over;
                match settle(settlement) {
                    Ok(value) => match refused {
                        Some(error) => RunAction::Finish(aborted(calls, &error)),
                        None => RunAction::Finish(completed(value, calls)),
                    },
                    Err(error) => RunAction::Finish(aborted(calls, &error)),
                }
            },
            RunEvent::Threw(text) => {
                self.stage = Stage::Over;
                RunAction::Finish(fail(calls, text))
            },
            RunEvent::Aborted(error) => {
                self.stage = Stage::Over;
                RunAction::Finish(aborted(calls, &error))
            },
        }
    }

    fn advance(&mut self, pending: bool, calls: usize) -> (action: RunAction)
        requires
            old(self).stage != Stage::Over,
        ensures
            final(self).stubs == old(self).stubs,
            final(self).source == old(self).source,
            final(self).stage == old(self).advanced(pending),
            final(self).rounds == old(self).rounds + if final(self).stage == Stage::Flushing {
                1int
            } else {
                0int
            },
            old(self).wf() ==> final(self).wf(),
            if final(self).stage == Stage::Over {
                action matches RunAction::Finish(outcome) && outcome.fails_by(
                    calls,
                    ScriptError::DriveBudget,
                )
            } else if final(self).stage == old(self).stage {
                action == RunAction::Nothing
            } else {
                final(self).asks(action)
            },
    {
        match self.stage {
            Stage::Created => self.register(HostFn::Call),
            Stage::Registering(HostFn::Call) => self.register(HostFn::CallAsync),
            Stage::Registering(HostFn::CallAsync) => self.register(HostFn::FetchResult),
            Stage::Registering(HostFn::FetchResult) => {
                self.stage = Stage::Injecting;
                RunAction::InjectData
            },
            Stage::Injecting => {
                self.stage = Stage::Preluding;
                RunAction::Eval(PRELUDE.to_owned())
            },
            Stage::Preluding => {
                self.stage = Stage::Stubbing;
                RunAction::Eval(self.stubs.clone())
            },
            Stage::Stubbing => {
                self.stage = Stage::Starting;
                RunAction::Start(self.source.clone())
            },
            Stage::Starting => self.begin_round(calls),
            Stage::Flushing => {
                self.stage = Stage::Draining;
                RunAction::RunJobs
            },
            Stage::Draining => {
                if pending {
                    self.begin_round(calls)
                } else {
                    self.stage = Stage::Observing;
                    RunAction::Observe
                }
            },
            Stage::Observing => RunAction::Nothing,
            Stage::Over => RunAction::Nothing,
        }
    }

    fn register(&mut self, host: HostFn) -> (action: RunAction)
        ensures
            *final(self) == (ScriptRun { stage: Stage::Registering(host), ..*old(self) }),
            action == RunAction::Register(host),
    {
        self.stage = Stage::Registering(host);
        RunAction::Register(host)
    }

    fn begin_round(&mut self, calls: usize) -> (action: RunAction)
        ensures
            final(self).stubs == old(self).stubs,
            final(self).source == old(self).source,
            final(self).stage == old(self).next_round(),
            if old(self).rounds < MAX_DRIVE_ITERS {
                action == RunAction::Flush && final(self).rounds == old(self).rounds + 1
            } else {
                &&& action matches RunAction::Finish(outcome) && outcome.fails_by(
                    calls,
                    ScriptError::DriveBudget,
                )
                &&& final(self).rounds == old(self).rounds
            },
    {
        if self.rounds < MAX_DRIVE_ITERS {
            self.rounds = self.rounds + 1;
            self.stage = Stage::Flushing;
            RunAction::Flush
        } else {
            self.stage = Stage::Over;
            RunAction::Finish(aborted(calls, &ScriptError::DriveBudget))
        }
    }
}

} // verus!
