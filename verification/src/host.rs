//! The tool calls of a script: the slots that it may use, and the deferred calls that are
//! run in batches.

use serde_json::Value;
use std::collections::VecDeque;
use vstd::prelude::*;

use crate::error::ScriptError;
use crate::json::json_text;
use crate::json::reply_text;
use crate::limits::at_least_one;
use crate::limits::raise_to_one;
use crate::limits::Limits;
use crate::wire::arg_text;
use crate::wire::call_document;
use crate::wire::call_name;
use crate::wire::parse_call_args;
use crate::wire::ScriptArg;

verus! {

/// A deferred call that waits to be run, with what settles the promise of it.
pub struct PendingCall<R> {
    pub name: String,
    pub args: Value,
    pub resolvers: R,
}

/// What happened last in a flush of the deferred calls.
#[derive(Debug, Clone, Copy, PartialEq, Eq, Structural)]
pub enum FlushEvent {
    /// The flush begins.
    Entered,
    /// The calls of the last batch have been run and settled.
    BatchSettled,
}

/// What is to be done next in a flush of the deferred calls.
pub enum FlushStep<R> {
    /// No call is left: the flush is over.
    Done,
    /// Run these calls, all at one time, and settle them.
    Run(Vec<PendingCall<R>>),
    /// End the script with this error.
    Abort(ScriptError),
}

/// How a flush goes on.
pub enum FlushDecision {
    Finish,
    Take(int),
    Refuse,
}

/// The calls of one script.
pub struct HostState<R> {
    /// How many calls the script has made, those that wait to be run among them.
    pub calls_made: usize,
    /// How many calls it may make.
    pub max_calls: usize,
    /// How many calls may run at one time.
    pub max_parallel: usize,
    /// How long the run may take, in nanoseconds.
    pub wall_clock: u128,
    /// The deferred calls, in the order in which they were made.
    pub pending: VecDeque<PendingCall<R>>,
    /// Why the last call that the script was refused was refused, if it was refused one.
    pub refused: Option<ScriptError>,
}

impl<R> HostState<R> {
    /// The script has made no more calls than it may, the calls that wait among them, and at
    /// least one may run at a time.
    pub open spec fn wf(self) -> bool {
        &&& self.pending@.len() <= self.calls_made <= self.max_calls
        &&& self.max_parallel >= 1
    }

    /// Whether the limits of two states agree.
    pub open spec fn same_limits(self, other: Self) -> bool {
        &&& self.max_calls == other.max_calls
        &&& self.max_parallel == other.max_parallel
        &&& self.wall_clock == other.wall_clock
    }

    /// Which limit, if any, forbids a call at a time.
    pub open spec fn refusal(self, elapsed: u128) -> Option<ScriptError> {
        if self.calls_made >= self.max_calls {
            Some(ScriptError::CallBudget(self.max_calls))
        } else if elapsed >= self.wall_clock {
            Some(ScriptError::Deadline)
        } else {
            None
        }
    }

    /// How one state becomes another when the script tries to begin a call: where it may, the
    /// call is counted; where it may not, the reason is kept.
    pub open spec fn begun(before: Self, elapsed: u128, after: Self) -> bool {
        &&& after.same_limits(before)
        &&& after.pending@ == before.pending@
        &&& match before.refusal(elapsed) {
            None => {
                &&& after.calls_made == before.calls_made + 1
                &&& after.refused == before.refused
            },
            Some(error) => {
                &&& after.calls_made == before.calls_made
                &&& after.refused == Some(error)
            },
        }
    }

    /// How one state becomes another when a call that has begun is deferred.
    pub open spec fn deferred(before: Self, call: PendingCall<R>, after: Self) -> bool {
        &&& after.same_limits(before)
        &&& after.calls_made == before.calls_made
        &&& after.pending@ == before.pending@.push(call)
        &&& after.refused == before.refused
    }

    /// How many of the deferred calls make up the next batch.
    pub open spec fn batch_len(self) -> int {
        if self.pending@.len() <= self.max_parallel {
            self.pending@.len() as int
        } else {
            self.max_parallel as int
        }
    }

    /// How a flush goes on after an event. When it begins, and while calls are left, the
    /// deadline comes first.
    pub open spec fn flush_decision(self, event: FlushEvent, elapsed: u128) -> FlushDecision {
        if event == FlushEvent::BatchSettled && self.pending@.len() == 0 {
            FlushDecision::Finish
        } else if elapsed >= self.wall_clock {
            FlushDecision::Refuse
        } else if self.pending@.len() == 0 {
            FlushDecision::Finish
        } else {
            FlushDecision::Take(self.batch_len())
        }
    }

    /// What a step does, given how the flush goes on.
    pub open spec fn flushed(
        before: Self,
        decision: FlushDecision,
        after: Self,
        step: FlushStep<R>,
    ) -> bool {
        &&& after.same_limits(before)
        &&& after.calls_made == before.calls_made
        &&& after.refused == before.refused
        &&& match decision {
            FlushDecision::Finish => {
                &&& step == FlushStep::<R>::Done
                &&& after.pending@ == before.pending@
            },
            FlushDecision::Take(n) => {
                &&& step matches FlushStep::Run(batch) && batch@ == before.pending@.take(n)
                &&& after.pending@ == before.pending@.skip(n)
            },
            FlushDecision::Refuse => {
                &&& step == FlushStep::<R>::Abort(ScriptError::Deadline)
                &&& after.pending@ == before.pending@
            },
        }
    }

    /// The state of a script that has made no call. A limit of no calls at one time counts
    /// as one.
    pub fn new(limits: &Limits) -> (state: Self)
        ensures
            state.wf(),
            state.calls_made == 0,
            state.max_calls == limits.max_calls,
            state.max_parallel == at_least_one(limits.max_parallel),
            state.wall_clock == limits.wall_clock,
            state.pending@.len() == 0,
            state.refused is None,
    {
        HostState {
            calls_made: 0,
            max_calls: limits.max_calls,
            max_parallel: raise_to_one(limits.max_parallel),
            wall_clock: limits.wall_clock,
            pending: VecDeque::new(),
            refused: None,
        }
    }

    /// How many calls have been run, or are being run: those that the script has made, without
    /// those that wait.
    pub fn calls_run(&self) -> (n: usize)
        ensures
            n == if self.pending@.len() <= self.calls_made {
                self.calls_made - self.pending@.len()
            } else {
                0
            },
            self.wf() ==> n == self.calls_made - self.pending@.len(),
    {
        self.calls_made.saturating_sub(self.pending.len())
    }

    /// Whether the script may make one more call at this time of the run.
    pub fn reserve_call_slot(&self, elapsed: u128) -> (slot: Result<(), ScriptError>)
        ensures
            match slot {
                Ok(_) => self.refusal(elapsed) is None,
                Err(error) => self.refusal(elapsed) == Some(error),
            },
    {
        if self.calls_made >= self.max_calls {
            return Err(ScriptError::CallBudget(self.max_calls));
        }
        if elapsed >= self.wall_clock {
            return Err(ScriptError::Deadline);
        }
        Ok(())
    }

    /// Begins a call: where the script may make one it is counted, and its tool name and its
    /// arguments are read. Where it may not, the reason is kept.
    pub fn begin_call(&mut self, args: &[ScriptArg], elapsed: u128) -> (call: Result<
        (String, Value),
        ScriptError,
    >)
        ensures
            Self::begun(*old(self), elapsed, *final(self)),
            match call {
                Ok((name, document)) => {
                    &&& old(self).refusal(elapsed) is None
                    &&& name@ == call_name(args@)
                    &&& json_text(document) == call_document(args@)
                    &&& arg_text(args@, 1, "{}"@) == "{}"@ ==> json_text(document) == "{}"@
                },
                Err(error) => old(self).refusal(elapsed) == Some(error),
            },
            old(self).wf() ==> final(self).wf(),
    {
        match self.reserve_call_slot(elapsed) {
            Ok(_) => {},
            Err(error) => {
                self.refused = Some(error.clone());
                return Err(error);
            },
        }
        let call: (String, Value) = parse_call_args(args);
        self.calls_made = self.calls_made + 1;
        Ok(call)
    }

    /// Defers a call that has begun: it waits behind those deferred before it.
    pub fn defer_call(&mut self, name: String, args: Value, resolvers: R)
        ensures
            Self::deferred(*old(self), (PendingCall { name, args, resolvers }), *final(self)),
            old(self).wf() && old(self).pending@.len() < old(self).calls_made ==> final(self).wf(),
    {
        self.pending.push_back(PendingCall { name: name, args: args, resolvers: resolvers });
    }

    /// Decides what a flush of the deferred calls does after an event: which calls to run
    /// next, or how the flush ends.
    pub fn flush_pending_host_calls(&mut self, event: FlushEvent, elapsed: u128) -> (step:
        FlushStep<R>)
        ensures
            Self::flushed(
                *old(self),
                old(self).flush_decision(event, elapsed),
                *final(self),
                step,
            ),
            old(self).wf() ==> final(self).wf(),
    {
        if event == FlushEvent::BatchSettled && self.pending.len() == 0 {
            return FlushStep::Done;
        }
        if elapsed >= self.wall_clock {
            return FlushStep::Abort(ScriptError::Deadline);
        }
        if self.pending.len() == 0 {
            return FlushStep::Done;
        }
        FlushStep::Run(self.take_batch())
    }

    fn take_batch(&mut self) -> (batch: Vec<PendingCall<R>>)
        ensures
            final(self).same_limits(*old(self)),
            final(self).refused == old(self).refused,
            final(self).calls_made == old(self).calls_made,
            batch@ == old(self).pending@.take(old(self).batch_len()),
            final(self).pending@ == old(self).pending@.skip(old(self).batch_len()),
    {
        let mut batch: Vec<PendingCall<R>> = Vec::new();
        let ghost before = *self;
        let mut n: usize = 0;
        assert(batch@ =~= before.pending@.take(0));
        assert(self.pending@ =~= before.pending@.skip(0));
        while n < self.max_parallel && self.pending.len() > 0
            invariant
                self.same_limits(before),
                self.refused == before.refused,
                self.calls_made == before.calls_made,
                n <= before.batch_len(),
                batch@ == before.pending@.take(n as int),
                self.pending@ == before.pending@.skip(n as int),
            decreases before.max_parallel - n,
        {
            if let Some(call) = self.pending.pop_front() {
                batch.push(call);
                n = n + 1;
                assert(batch@ =~= before.pending@.take(n as int));
                assert(self.pending@ =~= before.pending@.skip(n as int));
            }
        }
        assert(n == before.batch_len());
        batch
    }
}

/// The tool names and the arguments of the calls of a batch, in their order.
pub fn batch_items<R>(batch: &Vec<PendingCall<R>>) -> (items: Vec<(String, Value)>)
    ensures
        items@.len() == batch@.len(),
        forall|i: int|
            0 <= i < items@.len() ==> (#[trigger] items@[i]).0@ == batch@[i].name@ && json_text(
                items@[i].1,
            ) == json_text(batch@[i].args),
{
    let mut items: Vec<(String, Value)> = Vec::new();
    let mut i: usize = 0;
    while i < batch.len()
        invariant
            i <= batch@.len(),
            items@.len() == i,
            forall|j: int|
                0 <= j < i ==> (#[trigger] items@[j]).0@ == batch@[j].name@ && json_text(
                    items@[j].1,
                ) == json_text(batch@[j].args),
        decreases batch@.len() - i,
    {
        items.push((batch[i].name.clone(), batch[i].args.clone()));
        i = i + 1;
    }
    items
}

/// What settles each call of a batch, with the JSON text of the result of that call. Where there
/// are fewer results than calls, the calls at the end get none.
pub fn replies<R>(batch: Vec<PendingCall<R>>, results: Vec<Value>) -> (out: Vec<(R, String)>)
    ensures
        out@.len() == if batch@.len() <= results@.len() {
            batch@.len()
        } else {
            results@.len()
        },
        forall|i: int|
            0 <= i < out@.len() ==> (#[trigger] out@[i]).0 == batch@[i].resolvers && out@[i].1@
                == json_text(results@[i]),
{
    let ghost calls = batch@;
    let mut out: Vec<(R, String)> = Vec::new();
    let mut i: usize = 0;
    for call in it: batch
        invariant
            it.seq() == calls,
            i == out@.len(),
            out@.len() == if it.index() <= results@.len() {
                it.index()
            } else {
                results@.len() as int
            },
            forall|j: int|
                0 <= j < out@.len() ==> (#[trigger] out@[j]).0 == calls[j].resolvers && out@[j].1@
                    == json_text(results@[j]),
    {
        assert(call == calls[it.index()]);
        if i < results.len() {
            out.push((call.resolvers, reply_text(&results[i])));
            i = i + 1;
        }
    }
    out
}

} // verus!
