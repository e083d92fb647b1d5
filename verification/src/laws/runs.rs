//! Laws of the run of a script.

use serde_json::Value;
use vstd::prelude::*;

use crate::engine::native_error;
use crate::engine::trimmed;
use crate::engine::white_space;
use crate::error::ScriptError;
use crate::json::json_text;
use crate::outcome::ScriptOutcome;
use crate::run::HostFn;
use crate::run::PRELUDE;
use crate::run::RunAction;
use crate::run::RunEvent;
use crate::run::ScriptRun;
use crate::run::Settlement;
use crate::run::Stage;
use crate::run::MAX_DRIVE_ITERS;
use crate::run::wrapped;
use crate::text::decimal;

verus! {

/// Whether the runs follow each other by steps on the events.
pub open spec fn is_history(runs: Seq<ScriptRun>, events: Seq<RunEvent>) -> bool {
    &&& runs.len() == events.len() + 1
    &&& forall|i: int|
        0 <= i < events.len() ==> runs[i].moves(#[trigger] events[i], runs[i + 1])
}

/// How often a flush is asked for in a history.
pub open spec fn count_flushes(runs: Seq<ScriptRun>) -> int
    decreases runs.len(),
{
    if runs.len() <= 1 {
        0
    } else {
        count_flushes(runs.drop_last()) + if runs.last().stage == Stage::Flushing && runs[runs.len()
            - 2].stage != Stage::Flushing {
            1int
        } else {
            0int
        }
    }
}

/// Whatever happens in it, a run takes no more rounds than it may.
pub proof fn law_rounds_are_bounded(runs: Seq<ScriptRun>, events: Seq<RunEvent>)
    requires
        is_history(runs, events),
        runs[0].wf(),
    ensures
        runs.last().wf(),
        runs.last().rounds == runs[0].rounds + count_flushes(runs),
        runs[0].rounds + count_flushes(runs) <= MAX_DRIVE_ITERS,
    decreases events.len(),
{
    if events.len() > 0 {
        let earlier = runs.drop_last();
        let seen = events.drop_last();
        assert forall|i: int| 0 <= i < seen.len() implies earlier[i].moves(
            #[trigger] seen[i],
            earlier[i + 1],
        ) by {
            assert(runs[i].moves(events[i], runs[i + 1]));
        }
        law_rounds_are_bounded(earlier, seen);
        let k = events.len() - 1;
        assert(runs[k].moves(events[k], runs[k + 1]));
        assert(earlier.last() == runs[k]);
    }
}

/// A run that is over stays over.
pub proof fn law_over_is_over(runs: Seq<ScriptRun>, events: Seq<RunEvent>, i: int, j: int)
    requires
        is_history(runs, events),
        0 <= i <= j < runs.len(),
        runs[i].stage == Stage::Over,
    ensures
        runs[j].stage == Stage::Over,
    decreases j - i,
{
    if i < j {
        assert(runs[i].moves(events[i], runs[i + 1]));
        law_over_is_over(runs, events, i + 1, j);
    }
}

/// How far a run is in its set-up.
pub open spec fn progress(stage: Stage) -> int {
    match stage {
        Stage::Created => 0,
        Stage::Registering(HostFn::Call) => 1,
        Stage::Registering(HostFn::CallAsync) => 2,
        Stage::Registering(HostFn::FetchResult) => 3,
        Stage::Injecting => 4,
        Stage::Preluding => 5,
        Stage::Stubbing => 6,
        Stage::Starting => 7,
        _ => 8,
    }
}

/// The code of a script is run only after the three host functions, the data, the `toolport`
/// object and the `servers` object have been put in place, in this order.
pub proof fn law_script_starts_last(
    runs: Seq<ScriptRun>,
    events: Seq<RunEvent>,
    n: int,
    stage: Stage,
)
    requires
        is_history(runs, events),
        runs[0].stage == Stage::Created,
        0 <= n < runs.len(),
        runs[n].stage != Stage::Over,
        progress(stage) < progress(runs[n].stage),
        progress(stage) < 8,
    ensures
        exists|m: int| 0 <= m < n && (#[trigger] runs[m]).stage == stage,
    decreases n,
{
    if n > 0 {
        assert(runs[n - 1].moves(events[n - 1], runs[n]));
        if runs[n - 1].stage != stage {
            law_script_starts_last(runs, events, n - 1, stage);
            let m = choose|m: int| 0 <= m < n - 1 && (#[trigger] runs[m]).stage == stage;
            assert(0 <= m < n && runs[m].stage == stage);
        }
    }
}

/// A run fails closed: it ends without an error only where the value of the script was looked
/// at and is no promise that waits or was broken, and the script was refused no call; in every
/// other way that it can end, there is an error, and the value is `null`.
pub proof fn law_runs_fail_closed(
    run: ScriptRun,
    event: RunEvent,
    calls: usize,
    refused: Option<ScriptError>,
    outcome: ScriptOutcome,
)
    requires
        run.stage != Stage::Over,
        run.successor(event) == Stage::Over,
        run.ends_with(event, calls, refused, outcome),
    ensures
        outcome.calls == calls,
        outcome.error is None ==> run.stage == Stage::Observing && refused is None && (
        event matches RunEvent::Observed(settlement) && settlement.failure() is None
            && settlement.value_text() == Some(json_text(outcome.value))),
        outcome.error is Some ==> json_text(outcome.value) == "null"@,
{
}

proof fn lemma_error_given_whole(text: Seq<char>)
    requires
        text.len() > 0,
        !white_space(text[0]),
        !white_space(text.last()),
    ensures
        native_error(text) == "Error: "@ + text,
{
    assert(trimmed(text) == text);
}

/// An outcome gives the message of an error of the library whole, behind `Error: `. For the text
/// of an error that a script threw, see [`law_reasons_are_given_whole`].
pub proof fn law_messages_are_given_whole(error: ScriptError, outcome: ScriptOutcome, calls: usize)
    requires
        !(error is Rejected),
        outcome.fails_by(calls, error),
    ensures
        outcome.fails_with(calls, "Error: "@ + error.text()),
{
    reveal_strlit("toolport.call budget exceeded (");
    reveal_strlit(" calls)");
    reveal_strlit("toolport script wall-clock deadline exceeded");
    reveal_strlit("toolport script wall-clock deadline exceeded during promise jobs");
    reveal_strlit("toolport script promise-job budget exceeded (");
    reveal_strlit(" jobs)");
    reveal_strlit("toolport script used unsupported async/timer jobs inside code mode");
    reveal_strlit("toolport.fetchResult is unavailable in this context");
    reveal_strlit("toolport.fetchResult requires a non-empty cursor");
    reveal_strlit("toolport script hung on an unresolved Promise (no pending tool calls)");
    reveal_strlit("toolport script exceeded internal async drive budget");
    lemma_error_given_whole(error.text());
}

/// An outcome gives the text of an error that a script threw whole, behind `Error: Uncaught `,
/// unless it is empty or ends in white space, which is left out.
pub proof fn law_reasons_are_given_whole(reason: String, outcome: ScriptOutcome, calls: usize)
    requires
        outcome.fails_by(calls, ScriptError::Rejected(reason)),
        reason@.len() > 0,
        !white_space(reason@.last()),
    ensures
        outcome.fails_with(calls, "Error: Uncaught "@ + reason@),
{
    reveal_strlit("Uncaught ");
    reveal_strlit("Error: ");
    reveal_strlit("Error: Uncaught ");
    lemma_error_given_whole("Uncaught "@ + reason@);
    assert("Error: "@ + ("Uncaught "@ + reason@) =~= "Error: Uncaught "@ + reason@);
}

/// A run changes its stage only in this way: the set-up goes on step by step; a round begins with
/// a flush, once the script has been started or while calls wait after the jobs; after each flush
/// the jobs are run; and the value is looked at only after the jobs of a round, when no call
/// waits. The run ends only on an error, when the value was looked at, or when one more round is
/// needed after a million.
pub proof fn law_stages_follow_each_other(before: ScriptRun, event: RunEvent, after: ScriptRun)
    requires
        before.moves(event, after),
        after.stage != before.stage,
    ensures
        after.stage != Stage::Over ==> event is Done,
        match after.stage {
            Stage::Created => false,
            Stage::Registering(HostFn::Call) => before.stage == Stage::Created,
            Stage::Registering(HostFn::CallAsync) => before.stage == Stage::Registering(
                HostFn::Call,
            ),
            Stage::Registering(HostFn::FetchResult) => before.stage == Stage::Registering(
                HostFn::CallAsync,
            ),
            Stage::Injecting => before.stage == Stage::Registering(HostFn::FetchResult),
            Stage::Preluding => before.stage == Stage::Injecting,
            Stage::Stubbing => before.stage == Stage::Preluding,
            Stage::Starting => before.stage == Stage::Stubbing,
            Stage::Flushing => before.stage == Stage::Starting || (before.stage == Stage::Draining
                && event == (RunEvent::Done { pending: true })),
            Stage::Draining => before.stage == Stage::Flushing,
            Stage::Observing => before.stage == Stage::Draining && event == (RunEvent::Done {
                pending: false,
            }),
            Stage::Over => match event {
                RunEvent::Done { pending } => before.rounds >= 1_000_000 && (before.stage
                    == Stage::Starting || (before.stage == Stage::Draining && pending)),
                RunEvent::Observed(_) => before.stage == Stage::Observing,
                RunEvent::Threw(_) => true,
                RunEvent::Aborted(_) => true,
            },
        },
{
}

/// A run never stands still: when what it asked for is done, it goes on; when the value was
/// looked at, or an error came, it is over. An event that answers nothing changes nothing.
pub proof fn law_answers_move_a_run(before: ScriptRun, event: RunEvent, after: ScriptRun)
    requires
        before.moves(event, after),
        before.stage != Stage::Over,
    ensures
        event is Done && before.stage != Stage::Observing ==> after.stage != before.stage,
        event is Done && before.stage == Stage::Observing ==> after == before,
        event is Observed && before.stage == Stage::Observing ==> after.stage == Stage::Over,
        event is Observed && before.stage != Stage::Observing ==> after == before,
        event is Threw || event is Aborted ==> after.stage == Stage::Over,
{
}

/// In every history of a run the value of the script is looked at only when the jobs of the
/// engine have been run after the last flush, and no call waits then.
pub proof fn law_jobs_run_before_the_value_is_looked_at(
    runs: Seq<ScriptRun>,
    events: Seq<RunEvent>,
    n: int,
)
    requires
        is_history(runs, events),
        runs[0].stage == Stage::Created,
        0 <= n < runs.len(),
        runs[n].stage == Stage::Observing,
    ensures
        exists|m: int|
            0 < m < n && (#[trigger] runs[m]).stage == Stage::Draining && events[m]
                == (RunEvent::Done { pending: false }) && (forall|k: int|
                m < k <= n ==> (#[trigger] runs[k]).stage == Stage::Observing),
    decreases n,
{
    assert(runs[n - 1].moves(events[n - 1], runs[n]));
    if runs[n - 1].stage == Stage::Observing {
        law_jobs_run_before_the_value_is_looked_at(runs, events, n - 1);
        let m = choose|m: int|
            0 < m < n - 1 && (#[trigger] runs[m]).stage == Stage::Draining && events[m]
                == (RunEvent::Done { pending: false }) && (forall|k: int|
                m < k <= n - 1 ==> (#[trigger] runs[k]).stage == Stage::Observing);
        assert(runs[m].stage == Stage::Draining);
    } else {
        law_stages_follow_each_other(runs[n - 1], events[n - 1], runs[n]);
        assert(runs[n - 1].stage == Stage::Draining);
    }
}

/// In every history of a run the jobs of the engine are run right after the deferred calls have
/// been flushed, in whatever round.
pub proof fn law_jobs_run_after_each_flush(runs: Seq<ScriptRun>, events: Seq<RunEvent>, n: int)
    requires
        is_history(runs, events),
        0 <= n < events.len(),
        runs[n].stage == Stage::Flushing,
        events[n] is Done,
    ensures
        runs[n + 1].stage == Stage::Draining,
        runs[n + 1].rounds == runs[n].rounds,
{
    assert(runs[n].moves(events[n], runs[n + 1]));
    law_answers_move_a_run(runs[n], events[n], runs[n + 1]);
    law_stages_follow_each_other(runs[n], events[n], runs[n + 1]);
}

/// A run takes as many rounds as its script needs, up to a million: while calls wait after the
/// jobs, and fewer rounds were begun, another flush is asked for.
pub proof fn law_rounds_go_on_while_calls_wait(before: ScriptRun, after: ScriptRun)
    requires
        before.moves(RunEvent::Done { pending: true }, after),
        before.stage == Stage::Draining,
        before.rounds < 1_000_000,
    ensures
        after.stage == Stage::Flushing,
        after.rounds == before.rounds + 1,
{
    law_answers_move_a_run(before, (RunEvent::Done { pending: true }), after);
    law_stages_follow_each_other(before, (RunEvent::Done { pending: true }), after);
}

/// A run that has taken no round yet asks for a million flushes at most, whatever happens in it,
/// and counts each of them.
pub proof fn law_rounds_are_a_million_at_most(runs: Seq<ScriptRun>, events: Seq<RunEvent>)
    requires
        is_history(runs, events),
        runs[0].rounds == 0,
    ensures
        count_flushes(runs) <= 1_000_000,
        runs.last().rounds == count_flushes(runs),
{
    law_rounds_are_bounded(runs, events);
}

/// The code that a run was made with is the code that it runs: it stays the same to the end.
pub proof fn law_code_is_kept(runs: Seq<ScriptRun>, events: Seq<RunEvent>, n: int)
    requires
        is_history(runs, events),
        0 <= n < runs.len(),
    ensures
        runs[n].stubs == runs[0].stubs,
        runs[n].source == runs[0].source,
    decreases n,
{
    if n > 0 {
        assert(runs[n - 1].moves(events[n - 1], runs[n]));
        law_code_is_kept(runs, events, n - 1);
    }
}

/// What a run asks for is what its stage is for, with the whole code of that stage.
pub proof fn law_runs_ask_for_their_stage(run: ScriptRun, action: RunAction)
    requires
        run.asks(action),
    ensures
        match action {
            RunAction::Register(host) => run.stage == Stage::Registering(host),
            RunAction::InjectData => run.stage == Stage::Injecting,
            RunAction::Eval(code) => (run.stage == Stage::Preluding && code@ == PRELUDE@) || (
            run.stage == Stage::Stubbing && code@ == run.stubs@),
            RunAction::Start(code) => run.stage == Stage::Starting && code@ == run.source@,
            RunAction::Flush => run.stage == Stage::Flushing,
            RunAction::RunJobs => run.stage == Stage::Draining,
            RunAction::Observe => run.stage == Stage::Observing,
            RunAction::Finish(outcome) => false,
            RunAction::Nothing => false,
        },
{
}

/// The code of a script stands whole and unchanged inside the function that is called at once,
/// and what stands around it does not depend on it.
pub proof fn law_scripts_are_run_whole(script: Seq<char>)
    ensures
        wrapped(script).len() == script.len() + 26,
        wrapped(script).take(21) == "(async function () {\n"@,
        wrapped(script).subrange(21, 21int + script.len()) == script,
        wrapped(script).skip(21int + script.len()) == "\n})()"@,
{
    reveal_strlit("(async function () {\n");
    reveal_strlit("\n})()");
}

/// A script that settles with a value, and was refused no call, ends with that value, whatever
/// it is, and without an error.
pub proof fn law_values_are_returned_whole(
    run: ScriptRun,
    value: Value,
    calls: usize,
    plain: ScriptOutcome,
    fulfilled: ScriptOutcome,
)
    requires
        run.ends_with(
            RunEvent::Observed(Settlement::Plain(Some(value))),
            calls,
            None,
            plain,
        ),
        run.ends_with(
            RunEvent::Observed(Settlement::Fulfilled(Some(value))),
            calls,
            None,
            fulfilled,
        ),
    ensures
        json_text(plain.value) == json_text(value),
        plain.error is None,
        plain.calls == calls,
        json_text(fulfilled.value) == json_text(value),
        fulfilled.error is None,
        fulfilled.calls == calls,
{
}

/// Only a value that cannot be written as JSON, such as the value of a script that returns
/// nothing, is given as `null`.
pub proof fn law_missing_values_are_null(
    run: ScriptRun,
    fulfilled: bool,
    calls: usize,
    outcome: ScriptOutcome,
)
    requires
        run.ends_with(
            RunEvent::Observed(
                if fulfilled {
                    Settlement::Fulfilled(None)
                } else {
                    Settlement::Plain(None)
                },
            ),
            calls,
            None,
            outcome,
        ),
    ensures
        json_text(outcome.value) == "null"@,
        outcome.error is None,
        outcome.calls == calls,
{
}

/// Two scripts that settle with values of the same text end alike, and two that end alike have
/// settled with values of the same text.
pub proof fn law_settled_values_decide_the_end(
    run: ScriptRun,
    a: Value,
    b: Value,
    calls: usize,
    from_a: ScriptOutcome,
    from_b: ScriptOutcome,
)
    requires
        run.ends_with(RunEvent::Observed(Settlement::Fulfilled(Some(a))), calls, None, from_a),
        run.ends_with(RunEvent::Observed(Settlement::Fulfilled(Some(b))), calls, None, from_b),
    ensures
        json_text(from_a.value) == json_text(from_b.value) <==> json_text(a) == json_text(b),
{
}

/// A run that fails tells why: the text of the error of the engine as it is, and else what the
/// engine gives for the message of the library's error. The value is `null`, and the calls that
/// were run are counted.
pub proof fn law_failures_are_told(
    run: ScriptRun,
    event: RunEvent,
    calls: usize,
    refused: Option<ScriptError>,
    outcome: ScriptOutcome,
)
    requires
        run.ends_with(event, calls, refused, outcome),
    ensures
        outcome.calls == calls,
        outcome.error is Some ==> json_text(outcome.value) == "null"@,
        match event {
            RunEvent::Done { pending } => outcome.error matches Some(text) && text@ == native_error(
                "toolport script exceeded internal async drive budget"@,
            ),
            RunEvent::Observed(Settlement::Pending) => outcome.error matches Some(text) && text@
                == native_error(
                "toolport script hung on an unresolved Promise (no pending tool calls)"@,
            ),
            RunEvent::Observed(Settlement::Rejected(reason)) => outcome.error matches Some(text)
                && text@ == native_error("Uncaught "@ + reason@),
            RunEvent::Observed(_) => refused matches Some(error) ==> (
            outcome.error matches Some(text) && text@ == native_error(error.text())),
            RunEvent::Threw(thrown) => outcome.error matches Some(text) && text@ == thrown@,
            RunEvent::Aborted(error) => outcome.error matches Some(text) && text@ == native_error(
                error.text(),
            ),
        },
{
}

/// The messages of the errors. Those that speak of a limit give the whole number of it, and the
/// one that hands on a reason gives the whole reason.
pub proof fn law_messages(n: usize, reason: String)
    ensures
        ScriptError::CallBudget(n).text() == "toolport.call budget exceeded ("@ + decimal(n as nat)
            + " calls)"@,
        ScriptError::JobBudget(n).text() == "toolport script promise-job budget exceeded ("@
            + decimal(n as nat) + " jobs)"@,
        ScriptError::Rejected(reason).text() == "Uncaught "@ + reason@,
        ScriptError::Deadline.text() == "toolport script wall-clock deadline exceeded"@,
        ScriptError::JobDeadline.text()
            == "toolport script wall-clock deadline exceeded during promise jobs"@,
        ScriptError::UnsupportedJob.text()
            == "toolport script used unsupported async/timer jobs inside code mode"@,
        ScriptError::FetchUnavailable.text()
            == "toolport.fetchResult is unavailable in this context"@,
        ScriptError::EmptyCursor.text() == "toolport.fetchResult requires a non-empty cursor"@,
        ScriptError::Hung.text()
            == "toolport script hung on an unresolved Promise (no pending tool calls)"@,
        ScriptError::DriveBudget.text() == "toolport script exceeded internal async drive budget"@,
{
}

/// The code of the `toolport` object: `call` and `callAsync` hand the name and the JSON of the
/// arguments to the host and read the reply, `callAll` makes all the calls of a list at one time,
/// `fetchResult` hands over the four things that it was given, and the lists are empty until the
/// catalog is installed.
pub open spec fn toolport_code() -> Seq<char> {
    r#"
globalThis.toolport = {
    call: function (name, args) {
        var payload = (args === undefined || args === null) ? {} : args;
        return JSON.parse(__toolport_call(String(name), JSON.stringify(payload)));
    },
    callAsync: function (name, args) {
        var payload = (args === undefined || args === null) ? {} : args;
        return __toolport_call_async(String(name), JSON.stringify(payload)).then(function (raw) {
            return JSON.parse(raw);
        });
    },
    callAll: function (items) {
        if (!Array.isArray(items)) {
            return Promise.reject(new TypeError("toolport.callAll expects an array of {name, args}"));
        }
        return Promise.all(items.map(function (item) {
            var name = item && item.name;
            var args = item && item.args;
            return toolport.callAsync(name, args);
        }));
    },
    // Page a shaped result by cursor (same stash as toolport_fetch_result). Prefer
    // projecting / filtering full intermediate tool results in-script instead; this
    // is for cursors handed in via `data` or left from a prior shaped agent turn.
    fetchResult: function (opts) {
        opts = (opts === undefined || opts === null) ? {} : opts;
        return JSON.parse(__toolport_fetch_result(JSON.stringify({
            cursor: opts.cursor,
            offset: opts.offset,
            len: opts.len,
            projection: opts.projection
        })));
    },
    listTools: function () { return []; },
    listServers: function () { return []; },
};
"#@
}

/// The code that is run first is that of the `toolport` object, and all of it.
pub proof fn law_toolport_object_is_installed(run: ScriptRun, action: RunAction)
    requires
        run.stage == Stage::Preluding,
        run.asks(action),
    ensures
        action matches RunAction::Eval(code) && code@ == toolport_code(),
{
}

/// White space around a message is left out, and nothing else of it.
pub proof fn law_only_white_space_is_trimmed(before: Seq<char>, text: Seq<char>, after: Seq<char>)
    requires
        forall|i: int| 0 <= i < before.len() ==> white_space(#[trigger] before[i]),
        forall|i: int| 0 <= i < after.len() ==> white_space(#[trigger] after[i]),
        text.len() > 0 ==> !white_space(text[0]) && !white_space(text.last()),
    ensures
        trimmed(before + text + after) == text,
    decreases before.len() + after.len(),
{
    let whole = before + text + after;
    if before.len() > 0 {
        assert(whole[0] == before[0]);
        assert(whole.drop_first() =~= before.drop_first() + text + after);
        law_only_white_space_is_trimmed(before.drop_first(), text, after);
    } else if after.len() > 0 {
        if text.len() > 0 {
            assert(whole[0] == text[0]);
            assert(whole.last() == after.last());
            assert(whole.drop_last() =~= before + text + after.drop_last());
            law_only_white_space_is_trimmed(before, text, after.drop_last());
        } else {
            assert(whole[0] == after[0]);
            assert(whole.drop_first() =~= before + text + after.drop_first());
            law_only_white_space_is_trimmed(before, text, after.drop_first());
        }
    } else {
        assert(whole =~= text);
    }
}

} // verus!
