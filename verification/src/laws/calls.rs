//! Laws of tool calls: their budget, their deadline and their batches.

use vstd::prelude::*;

use crate::error::ScriptError;
use crate::host::FlushDecision;
use crate::host::FlushEvent;
use crate::host::FlushStep;
use crate::host::HostState;
use crate::host::PendingCall;

verus! {

/// What happens to the calls of a script.
pub enum CallEvent<R> {
    /// The script makes a call that is run at once.
    CallNow { elapsed: u128 },
    /// The script makes a call that is deferred.
    CallLater { elapsed: u128, call: PendingCall<R> },
    /// A flush takes one step.
    Flush { event: FlushEvent, elapsed: u128 },
}

impl<R> CallEvent<R> {
    /// The time at which the script makes a call, if it makes one.
    pub open spec fn tried_at(self) -> Option<u128> {
        match self {
            CallEvent::CallNow { elapsed } => Some(elapsed),
            CallEvent::CallLater { elapsed, call } => Some(elapsed),
            CallEvent::Flush { event, elapsed } => None,
        }
    }
}

/// Whether one state becomes another by an event. A call that is refused is neither run nor
/// deferred.
pub open spec fn moves<R>(before: HostState<R>, event: CallEvent<R>, after: HostState<R>) -> bool {
    match event {
        CallEvent::CallNow { elapsed } => HostState::begun(before, elapsed, after),
        CallEvent::CallLater { elapsed, call } => exists|between: HostState<R>| #[trigger]
            HostState::begun(before, elapsed, between) && if before.refusal(elapsed) is None {
                HostState::deferred(between, call, after)
            } else {
                after == between
            },
        CallEvent::Flush { event, elapsed } => exists|step: FlushStep<R>| #[trigger]
            HostState::flushed(before, before.flush_decision(event, elapsed), after, step),
    }
}

/// How many calls are run on an event.
pub open spec fn runs<R>(before: HostState<R>, event: CallEvent<R>) -> int {
    match event {
        CallEvent::CallNow { elapsed } => if before.refusal(elapsed) is None {
            1
        } else {
            0
        },
        CallEvent::CallLater { elapsed, call } => 0,
        CallEvent::Flush { event, elapsed } => match before.flush_decision(event, elapsed) {
            FlushDecision::Take(n) => n,
            _ => 0,
        },
    }
}

/// Whether the states follow each other by the events.
pub open spec fn is_history<R>(states: Seq<HostState<R>>, events: Seq<CallEvent<R>>) -> bool {
    &&& states.len() == events.len() + 1
    &&& forall|i: int| 0 <= i < events.len() ==> moves(states[i], #[trigger] events[i], states[i + 1])
}

/// How many calls are run in a history.
pub open spec fn count_runs<R>(states: Seq<HostState<R>>, events: Seq<CallEvent<R>>) -> int
    decreases events.len(),
{
    if events.len() == 0 {
        0
    } else {
        count_runs(states.drop_last(), events.drop_last()) + runs(
            states[events.len() - 1],
            events.last(),
        )
    }
}

/// How often the script makes a call, or is refused one.
pub open spec fn count_tries<R>(events: Seq<CallEvent<R>>) -> int
    decreases events.len(),
{
    if events.len() == 0 {
        0
    } else {
        count_tries(events.drop_last()) + if events.last().tried_at() is Some {
            1int
        } else {
            0int
        }
    }
}

proof fn lemma_move<R>(before: HostState<R>, event: CallEvent<R>, after: HostState<R>)
    requires
        before.wf(),
        moves(before, event, after),
    ensures
        after.wf(),
        after.same_limits(before),
        after.calls_made - after.pending@.len() == before.calls_made - before.pending@.len() + runs(
            before,
            event,
        ),
        after.calls_made == before.calls_made + match event.tried_at() {
            Some(elapsed) => if before.refusal(elapsed) is None {
                1int
            } else {
                0int
            },
            None => 0int,
        },
        before.refused is Some ==> after.refused is Some,
        event.tried_at() matches Some(elapsed) ==> before.refusal(elapsed) is Some
            ==> after.refused is Some,
{
}

proof fn lemma_shorter_history<R>(states: Seq<HostState<R>>, events: Seq<CallEvent<R>>)
    requires
        is_history(states, events),
        events.len() > 0,
    ensures
        is_history(states.drop_last(), events.drop_last()),
        states.drop_last().last() == states[events.len() - 1],
        moves(states[events.len() - 1], events.last(), states.last()),
{
    let earlier = states.drop_last();
    let seen = events.drop_last();
    assert forall|i: int| 0 <= i < seen.len() implies moves(
        earlier[i],
        #[trigger] seen[i],
        earlier[i + 1],
    ) by {
        assert(moves(states[i], events[i], states[i + 1]));
    }
    let k = events.len() - 1;
    assert(moves(states[k], events[k], states[k + 1]));
}

/// However a script makes, defers and flushes calls, it makes no more than it may, and each call
/// that it has made either has been run or waits: from a state without calls, the calls that were
/// run and those that wait are together the calls that were made.
pub proof fn law_calls_stay_within_budget<R>(
    states: Seq<HostState<R>>,
    events: Seq<CallEvent<R>>,
)
    requires
        is_history(states, events),
        states[0].wf(),
    ensures
        states.last().wf(),
        states.last().same_limits(states[0]),
        states[0].calls_made <= states.last().calls_made <= states[0].max_calls,
        count_runs(states, events) + states.last().pending@.len() - states[0].pending@.len()
            == states.last().calls_made - states[0].calls_made,
        states[0].calls_made == 0 ==> count_runs(states, events) + states.last().pending@.len()
            == states.last().calls_made,
    decreases events.len(),
{
    if events.len() > 0 {
        lemma_shorter_history(states, events);
        law_calls_stay_within_budget(states.drop_last(), events.drop_last());
        lemma_move(states[events.len() - 1], events.last(), states.last());
    }
}

/// A script that tries within the deadline makes exactly the calls that it may: each try
/// succeeds until the budget is used up, and then each is refused for that reason.
pub proof fn law_budget_is_used_up<R>(states: Seq<HostState<R>>, events: Seq<CallEvent<R>>)
    requires
        is_history(states, events),
        states[0].wf(),
        forall|i: int|
            0 <= i < events.len() ==> ((#[trigger] events[i]).tried_at() matches Some(elapsed)
                ==> elapsed < states[0].wall_clock),
    ensures
        states.last().calls_made == if states[0].calls_made + count_tries(events)
            <= states[0].max_calls {
            states[0].calls_made + count_tries(events)
        } else {
            states[0].max_calls as int
        },
        states[0].calls_made + count_tries(events) >= states[0].max_calls ==> forall|elapsed: u128|
            #[trigger] states.last().refusal(elapsed) == Some(
                ScriptError::CallBudget(states[0].max_calls),
            ),
    decreases events.len(),
{
    law_calls_stay_within_budget(states, events);
    if events.len() > 0 {
        let earlier = states.drop_last();
        let seen = events.drop_last();
        lemma_shorter_history(states, events);
        assert forall|i: int| 0 <= i < seen.len() implies ((
        #[trigger] seen[i]).tried_at() matches Some(elapsed) ==> elapsed
            < earlier[0].wall_clock) by {
            assert(seen[i] == events[i]);
        }
        law_budget_is_used_up(earlier, seen);
        law_calls_stay_within_budget(earlier, seen);
        assert(events.last() == events[events.len() - 1]);
        lemma_move(states[events.len() - 1], events.last(), states.last());
    }
}

proof fn lemma_later<R>(states: Seq<HostState<R>>, events: Seq<CallEvent<R>>, i: int, j: int)
    requires
        is_history(states, events),
        states[0].wf(),
        0 <= i <= j < states.len(),
    ensures
        states[i].wf(),
        states[j].wf(),
        states[j].same_limits(states[i]),
        states[i].calls_made <= states[j].calls_made,
        states[i].refused is Some ==> states[j].refused is Some,
    decreases j,
{
    if j > 0 {
        assert(moves(states[j - 1], events[j - 1], states[j]));
        if i < j {
            lemma_later(states, events, i, j - 1);
        } else {
            lemma_later(states, events, j - 1, j - 1);
        }
        lemma_move(states[j - 1], events[j - 1], states[j]);
    }
}

/// Once a call has been refused, a later call is refused too, whatever happened between.
pub proof fn law_refusal_is_final<R>(
    states: Seq<HostState<R>>,
    events: Seq<CallEvent<R>>,
    i: int,
    elapsed: u128,
    j: int,
    later: u128,
)
    requires
        is_history(states, events),
        states[0].wf(),
        0 <= i <= j < states.len(),
        states[i].refusal(elapsed) is Some,
        elapsed <= later,
    ensures
        states[j].refusal(later) is Some,
{
    lemma_later(states, events, i, j);
}

/// A refusal is kept until the run ends: whatever happened since, the state holds a reason for
/// which the script was refused a call.
pub proof fn law_refusals_are_kept<R>(
    states: Seq<HostState<R>>,
    events: Seq<CallEvent<R>>,
    i: int,
    j: int,
)
    requires
        is_history(states, events),
        states[0].wf(),
        0 <= i < j < states.len(),
        events[i].tried_at() matches Some(elapsed) && states[i].refusal(elapsed) is Some,
    ensures
        states[j].refused is Some,
{
    lemma_later(states, events, i, i);
    assert(moves(states[i], events[i], states[i + 1]));
    lemma_move(states[i], events[i], states[i + 1]);
    lemma_later(states, events, i + 1, j);
}

/// Once the time of a run is over, no call begins and no deferred call is run.
pub proof fn law_no_call_after_deadline<R>(state: HostState<R>, event: FlushEvent, elapsed: u128)
    requires
        elapsed >= state.wall_clock,
    ensures
        state.refusal(elapsed) is Some,
        !(state.flush_decision(event, elapsed) is Take),
{
}

/// A queue cut into pieces of a length, the last of which may be shorter.
pub open spec fn batches<A>(queue: Seq<A>, n: nat) -> Seq<Seq<A>>
    decreases queue.len(),
{
    if queue.len() == 0 || n == 0 {
        seq![]
    } else if queue.len() <= n {
        seq![queue]
    } else {
        seq![queue.take(n as int)] + batches(queue.skip(n as int), n)
    }
}

/// The pieces put together again.
pub open spec fn joined<A>(pieces: Seq<Seq<A>>) -> Seq<A>
    decreases pieces.len(),
{
    if pieces.len() == 0 {
        seq![]
    } else {
        pieces[0] + joined(pieces.drop_first())
    }
}

proof fn lemma_batches<A>(queue: Seq<A>, n: nat)
    requires
        n > 0,
    ensures
        joined(batches(queue, n)) == queue,
        forall|i: int|
            0 <= i < batches(queue, n).len() ==> 0 < (#[trigger] batches(queue, n)[i]).len() <= n,
    decreases queue.len(),
{
    let pieces = batches(queue, n);
    if queue.len() == 0 {
        assert(joined(pieces) =~= queue);
    } else if queue.len() <= n {
        assert(pieces.drop_first() =~= seq![]);
        assert(joined(pieces.drop_first()) =~= seq![]);
        assert(joined(pieces) =~= queue);
    } else {
        let rest = queue.skip(n as int);
        lemma_batches(rest, n);
        assert(pieces.drop_first() =~= batches(rest, n));
        assert(joined(pieces) =~= queue);
        assert forall|i: int| 0 <= i < pieces.len() implies 0 < (#[trigger] pieces[i]).len()
            <= n by {
            if i > 0 {
                assert(pieces[i] == batches(rest, n)[i - 1]);
            }
        }
    }
}

/// A flush runs every deferred call once, in the order in which the calls were made, and never
/// more than may run at one time.
pub proof fn law_flush_runs_all_in_order<R>(state: HostState<R>)
    requires
        state.wf(),
    ensures
        joined(batches(state.pending@, state.max_parallel as nat)) == state.pending@,
        forall|i: int|
            0 <= i < batches(state.pending@, state.max_parallel as nat).len() ==> 0 < (
            #[trigger] batches(state.pending@, state.max_parallel as nat)[i]).len()
                <= state.max_parallel,
{
    lemma_batches(state.pending@, state.max_parallel as nat);
}

/// The batches of [`law_flush_runs_all_in_order`] are those that a flush runs: within the
/// deadline a step runs the first of them and leaves the others.
pub proof fn law_flush_step_runs_first_batch<R>(
    before: HostState<R>,
    event: FlushEvent,
    elapsed: u128,
    after: HostState<R>,
    step: FlushStep<R>,
)
    requires
        before.wf(),
        before.pending@.len() > 0,
        elapsed < before.wall_clock,
        HostState::flushed(before, before.flush_decision(event, elapsed), after, step),
    ensures
        step matches FlushStep::Run(batch) && batch@ == batches(
            before.pending@,
            before.max_parallel as nat,
        )[0],
        batches(after.pending@, after.max_parallel as nat) == batches(
            before.pending@,
            before.max_parallel as nat,
        ).drop_first(),
{
    let n = before.max_parallel as nat;
    let all = batches(before.pending@, n);
    let take = before.batch_len();
    assert(before.flush_decision(event, elapsed) == FlushDecision::Take(take));
    if before.pending@.len() <= n {
        assert(before.pending@.take(take) =~= before.pending@);
        assert(before.pending@.skip(take) =~= seq![]);
        assert(all.drop_first() =~= seq![]);
    } else {
        assert(all.drop_first() =~= batches(before.pending@.skip(take), n));
    }
}

/// A flush that does not run into the deadline ends only when no call is left.
pub proof fn law_flush_leaves_nothing<R>(
    before: HostState<R>,
    event: FlushEvent,
    elapsed: u128,
    after: HostState<R>,
    step: FlushStep<R>,
)
    requires
        HostState::flushed(before, before.flush_decision(event, elapsed), after, step),
        step is Done,
    ensures
        after.pending@.len() == 0,
{
}

/// A call may be made exactly within the budget and the deadline, and the budget is told first.
pub proof fn law_call_limits<R>(state: HostState<R>, elapsed: u128)
    ensures
        state.refusal(elapsed) is None <==> state.calls_made < state.max_calls && elapsed
            < state.wall_clock,
        state.calls_made >= state.max_calls ==> state.refusal(elapsed) == Some(
            ScriptError::CallBudget(state.max_calls),
        ),
        state.calls_made < state.max_calls && elapsed >= state.wall_clock ==> state.refusal(elapsed)
            == Some(ScriptError::Deadline),
{
}

/// Beginning a call changes nothing but the count, or the reason of the refusal: no limit moves
/// and no call that waits is lost.
pub proof fn law_beginning_a_call<R>(before: HostState<R>, elapsed: u128, after: HostState<R>)
    requires
        HostState::begun(before, elapsed, after),
    ensures
        before.calls_made < before.max_calls && elapsed < before.wall_clock ==> after.calls_made
            == before.calls_made + 1 && after.refused == before.refused,
        before.calls_made >= before.max_calls ==> after.calls_made == before.calls_made
            && after.refused == Some(ScriptError::CallBudget(before.max_calls)),
        before.calls_made < before.max_calls && elapsed >= before.wall_clock ==> after.calls_made
            == before.calls_made && after.refused == Some(ScriptError::Deadline),
        after.pending@ == before.pending@,
        after.max_calls == before.max_calls,
        after.max_parallel == before.max_parallel,
        after.wall_clock == before.wall_clock,
{
}

/// A deferred call waits behind all those that waited before it, and nothing else changes.
pub proof fn law_deferring_a_call<R>(
    before: HostState<R>,
    call: PendingCall<R>,
    after: HostState<R>,
)
    requires
        HostState::deferred(before, call, after),
    ensures
        after.pending@.len() == before.pending@.len() + 1,
        after.pending@.last() == call,
        after.pending@.drop_last() == before.pending@,
        after.calls_made == before.calls_made,
        after.refused == before.refused,
        after.max_calls == before.max_calls,
        after.max_parallel == before.max_parallel,
        after.wall_clock == before.wall_clock,
{
    assert(after.pending@.drop_last() =~= before.pending@);
}

/// A step of a flush loses no call and runs none twice: the calls that it runs and those that
/// wait after it are, in this order, those that waited before it. It stops only at the deadline,
/// and then says so; and it ends only when no call waits.
pub proof fn law_flush_steps<R>(
    before: HostState<R>,
    event: FlushEvent,
    elapsed: u128,
    after: HostState<R>,
    step: FlushStep<R>,
)
    requires
        before.wf(),
        HostState::flushed(before, before.flush_decision(event, elapsed), after, step),
    ensures
        match step {
            FlushStep::Run(batch) => {
                &&& batch@ + after.pending@ == before.pending@
                &&& 0 < batch@.len() <= before.max_parallel
                &&& batch@.len() == before.max_parallel || after.pending@.len() == 0
                &&& elapsed < before.wall_clock
            },
            FlushStep::Done => before.pending@.len() == 0 && after.pending@ == before.pending@,
            FlushStep::Abort(error) => {
                &&& error == ScriptError::Deadline
                &&& elapsed >= before.wall_clock
                &&& after.pending@ == before.pending@
                &&& before.pending@.len() > 0 || event == FlushEvent::Entered
            },
        },
        elapsed >= before.wall_clock && (before.pending@.len() > 0 || event == FlushEvent::Entered)
            ==> step is Abort,
        after.calls_made == before.calls_made,
        after.refused == before.refused,
        after.max_calls == before.max_calls,
        after.max_parallel == before.max_parallel,
        after.wall_clock == before.wall_clock,
{
    if let FlushStep::Run(batch) = step {
        let n = before.batch_len();
        assert(before.pending@.take(n) + before.pending@.skip(n) =~= before.pending@);
    }
}

} // verus!
