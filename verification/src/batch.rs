//! The calls of one batch: how they are run, and how their results are put in order.

use serde_json::Value;
use vstd::prelude::*;

use crate::json::array_text;
use crate::json::array_value;
use crate::json::bool_value;
use crate::json::json_text;
use crate::json::needs_no_escape;
use crate::json::object_text;
use crate::json::object_value;
use crate::json::string_text;
use crate::json::string_value;
use crate::text::differs_first_at;

verus! {

/// How the calls of a batch are run.
#[derive(Debug, Clone, Copy, PartialEq, Eq, Structural)]
pub enum Dispatch {
    /// There is no call to run.
    Nothing,
    /// The one call is run where the script runs.
    Inline,
    /// Each call is run on a thread of its own.
    Threads,
}

/// How a batch of so many calls is run.
pub fn dispatch_for(n: usize) -> (dispatch: Dispatch)
    ensures
        dispatch == (if n == 0 {
            Dispatch::Nothing
        } else if n == 1 {
            Dispatch::Inline
        } else {
            Dispatch::Threads
        }),
{
    if n == 0 {
        Dispatch::Nothing
    } else if n == 1 {
        Dispatch::Inline
    } else {
        Dispatch::Threads
    }
}

/// How the thread of one call ended.
pub enum WorkerOutcome {
    /// With the result of the call that has this place in the batch.
    Finished { slot: usize, value: Value },
    /// Without a result.
    Panicked,
}

/// The message for a call whose thread ended without a result.
pub const WORKER_PANICKED: &'static str = "Toolport: callAsync worker panicked";

/// The message for a call of which nothing was heard.
pub const WORKER_MISSING: &'static str = "Toolport: callAsync worker missing result";

/// The result that stands for one that a call did not give, as JSON text: a tool result with
/// the message for its content, marked as an error.
pub open spec fn error_result_text(message: Seq<char>) -> Seq<char> {
    object_text(
        "content"@,
        array_text(object_text("text"@, string_text(message), "type"@, string_text("text"@))),
        "isError"@,
        "true"@,
    )
}

/// The result that stands for one that a call did not give.
fn error_result(message: &str) -> (value: Value)
    requires
        needs_no_escape(message@),
    ensures
        json_text(value) == error_result_text(message@),
{
    proof {
        reveal_strlit("content");
        reveal_strlit("isError");
        reveal_strlit("text");
        reveal_strlit("type");
        assert("content"@.take(0) =~= "isError"@.take(0));
        assert(differs_first_at("content"@, "isError"@, 0));
        assert("text"@.take(1) =~= "type"@.take(1));
        assert(differs_first_at("text"@, "type"@, 1));
    }
    let item: Value = object_value("text", string_value(message), "type", string_value("text"));
    object_value("content", array_value(item), "isError", bool_value(true))
}

/// Whether `k` is the first place without a result.
pub open spec fn first_empty(slots: Seq<Option<Seq<char>>>, k: int) -> bool {
    &&& 0 <= k < slots.len()
    &&& slots[k] is None
    &&& forall|j: int| 0 <= j < k ==> (#[trigger] slots[j]) is Some
}

/// The places after a thread has ended: its result stands in its own place; where it has none,
/// the error of that stands in the first place without a result.
pub open spec fn placed(slots: Seq<Option<Seq<char>>>, outcome: WorkerOutcome) -> Seq<
    Option<Seq<char>>,
> {
    match outcome {
        WorkerOutcome::Finished { slot, value } => slots.update(
            slot as int,
            Some(json_text(value)),
        ),
        WorkerOutcome::Panicked => if exists|k: int| #[trigger] first_empty(slots, k) {
            slots.update(
                choose|k: int| #[trigger] first_empty(slots, k),
                Some(error_result_text(WORKER_PANICKED@)),
            )
        } else {
            slots
        },
    }
}

/// The places after threads have ended, in this order.
pub open spec fn all_placed(n: nat, outcomes: Seq<WorkerOutcome>) -> Seq<Option<Seq<char>>>
    decreases outcomes.len(),
{
    if outcomes.len() == 0 {
        Seq::new(n, |i: int| None::<Seq<char>>)
    } else {
        placed(all_placed(n, outcomes.drop_last()), outcomes.last())
    }
}

/// The result in a place, or the error that there is none.
pub open spec fn settled(slot: Option<Seq<char>>) -> Seq<char> {
    match slot {
        Some(text) => text,
        None => error_result_text(WORKER_MISSING@),
    }
}

/// Whether every result belongs to a place of the batch.
pub open spec fn slots_within(n: nat, outcomes: Seq<WorkerOutcome>) -> bool {
    forall|j: int|
        0 <= j < outcomes.len() ==> match #[trigger] outcomes[j] {
            WorkerOutcome::Finished { slot, value } => slot < n,
            WorkerOutcome::Panicked => true,
        }
}

spec fn slot_texts(slots: Seq<Option<Value>>) -> Seq<Option<Seq<char>>> {
    slots.map_values(
        |slot: Option<Value>|
            match slot {
                Some(value) => Some(json_text(value)),
                None => None::<Seq<char>>,
            },
    )
}

proof fn lemma_first_empty(slots: Seq<Option<Seq<char>>>, k: int)
    requires
        first_empty(slots, k),
    ensures
        k == choose|k: int| #[trigger] first_empty(slots, k),
{
    let other = choose|k: int| #[trigger] first_empty(slots, k);
    assert(first_empty(slots, other));
}

/// A batch keeps its number of places.
proof fn lemma_placed_len(n: nat, outcomes: Seq<WorkerOutcome>)
    requires
        slots_within(n, outcomes),
    ensures
        all_placed(n, outcomes).len() == n,
    decreases outcomes.len(),
{
    if outcomes.len() > 0 {
        let earlier = outcomes.drop_last();
        assert forall|j: int| 0 <= j < earlier.len() implies match #[trigger] earlier[j] {
            WorkerOutcome::Finished { slot, value } => slot < n,
            WorkerOutcome::Panicked => true,
        } by {
            assert(earlier[j] == outcomes[j]);
        }
        lemma_placed_len(n, earlier);
        let slots = all_placed(n, earlier);
        match outcomes[outcomes.len() - 1] {
            WorkerOutcome::Finished { slot, value } => {},
            WorkerOutcome::Panicked => {
                if exists|k: int| #[trigger] first_empty(slots, k) {
                    let k = choose|k: int| #[trigger] first_empty(slots, k);
                    assert(first_empty(slots, k));
                }
            },
        }
    }
}

/// Puts one more outcome in place.
fn place(slots: &mut Vec<Option<Value>>, outcome: WorkerOutcome)
    requires
        outcome matches WorkerOutcome::Finished { slot, value } ==> slot < old(slots)@.len(),
    ensures
        slot_texts(final(slots)@) == placed(slot_texts(old(slots)@), outcome),
{
    let ghost before = slot_texts(slots@);
    match outcome {
        WorkerOutcome::Finished { slot, value } => {
            slots.set(slot, Some(value));
            assert(slot_texts(slots@) =~= before.update(slot as int, Some(json_text(value))));
        },
        WorkerOutcome::Panicked => {
            let mut k: usize = 0;
            while k < slots.len() && slots[k].is_some()
                invariant
                    slot_texts(slots@) == before,
                    k <= slots@.len(),
                    forall|j: int| 0 <= j < k ==> (#[trigger] before[j]) is Some,
                decreases slots@.len() - k,
            {
                assert(before[k as int] is Some);
                k = k + 1;
            }
            if k < slots.len() {
                assert(before[k as int] is None);
                assert(first_empty(before, k as int));
                proof {
                    reveal_strlit("Toolport: callAsync worker panicked");
                }
                let value: Value = error_result(WORKER_PANICKED);
                slots.set(k, Some(value));
                proof {
                    lemma_first_empty(before, k as int);
                    assert(slot_texts(slots@) =~= before.update(k as int, Some(json_text(value))));
                }
            } else {
                assert forall|j: int| !#[trigger] first_empty(before, j) by {}
            }
        },
    }
}

/// Puts the results of a batch in the order of its calls. The outcomes are those of the
/// threads, in the order in which they were waited for.
pub fn gather_results(n: usize, outcomes: Vec<WorkerOutcome>) -> (results: Vec<Value>)
    requires
        slots_within(n as nat, outcomes@),
    ensures
        results@.len() == n,
        forall|i: int|
            0 <= i < n ==> json_text(#[trigger] results@[i]) == settled(
                all_placed(n as nat, outcomes@)[i],
            ),
{
    let ghost all = outcomes@;
    let mut slots: Vec<Option<Value>> = Vec::new();
    let mut i: usize = 0;
    while i < n
        invariant
            i <= n,
            slots@.len() == i,
            forall|j: int| 0 <= j < i ==> #[trigger] slots@[j] == None::<Value>,
        decreases n - i,
    {
        slots.push(None);
        i = i + 1;
    }
    assert(slot_texts(slots@) =~= all_placed(n as nat, all.take(0)));
    for outcome in it: outcomes
        invariant
            it.seq() == all,
            slots_within(n as nat, all),
            slots@.len() == n,
            slot_texts(slots@) == all_placed(n as nat, all.take(it.index())),
    {
        assert(all.take(it.index() + 1).drop_last() =~= all.take(it.index()));
        assert(outcome == all[it.index()]);
        proof {
            lemma_placed_len(n as nat, all.take(it.index() + 1));
        }
        place(&mut slots, outcome);
        assert(slot_texts(slots@).len() == n);
    }
    assert(all.take(all.len() as int) =~= all);
    let ghost places = slots@;
    let mut results: Vec<Value> = Vec::new();
    for slot in it: slots
        invariant
            it.seq() == places,
            places.len() == n,
            slot_texts(places) == all_placed(n as nat, all),
            results@.len() == it.index(),
            forall|j: int|
                0 <= j < it.index() ==> json_text(#[trigger] results@[j]) == settled(
                    all_placed(n as nat, all)[j],
                ),
    {
        assert(slot == places[it.index()]);
        assert(slot_texts(places)[it.index()] == all_placed(n as nat, all)[it.index()]);
        match slot {
            Some(value) => {
                results.push(value);
            },
            None => {
                proof {
                    reveal_strlit("Toolport: callAsync worker missing result");
                }
                results.push(error_result(WORKER_MISSING));
            },
        }
    }
    results
}

} // verus!
