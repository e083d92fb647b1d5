//! Laws of the results of a batch.

use vstd::prelude::*;

use crate::batch::WORKER_MISSING;
use crate::batch::all_placed;
use crate::batch::error_result_text;
use crate::batch::first_empty;
use crate::batch::placed;
use crate::batch::settled;
use crate::batch::slots_within;
use crate::batch::WorkerOutcome;
use crate::batch::WORKER_PANICKED;
use crate::json::json_text;

verus! {

/// Whether the outcomes are those of the threads of a batch, waited for in the order of its
/// calls: each result belongs to the place at which its thread was waited for.
pub open spec fn waited_in_order(outcomes: Seq<WorkerOutcome>) -> bool {
    forall|j: int|
        0 <= j < outcomes.len() ==> match #[trigger] outcomes[j] {
            WorkerOutcome::Finished { slot, value } => slot == j,
            WorkerOutcome::Panicked => true,
        }
}

/// The result of the call whose thread ended so.
pub open spec fn result_of(outcome: WorkerOutcome) -> Seq<char> {
    match outcome {
        WorkerOutcome::Finished { slot, value } => json_text(value),
        WorkerOutcome::Panicked => error_result_text(WORKER_PANICKED@),
    }
}

proof fn lemma_filled(n: nat, outcomes: Seq<WorkerOutcome>)
    requires
        waited_in_order(outcomes),
        outcomes.len() <= n,
    ensures
        all_placed(n, outcomes).len() == n,
        forall|i: int|
            0 <= i < outcomes.len() ==> #[trigger] all_placed(n, outcomes)[i] == Some(
                result_of(outcomes[i]),
            ),
        forall|i: int| outcomes.len() <= i < n ==> (#[trigger] all_placed(n, outcomes)[i]) is None,
    decreases outcomes.len(),
{
    if outcomes.len() > 0 {
        let earlier = outcomes.drop_last();
        let k = outcomes.len() - 1;
        assert forall|j: int| 0 <= j < earlier.len() implies match #[trigger] earlier[j] {
            WorkerOutcome::Finished { slot, value } => slot == j,
            WorkerOutcome::Panicked => true,
        } by {
            assert(earlier[j] == outcomes[j]);
        }
        lemma_filled(n, earlier);
        let slots = all_placed(n, earlier);
        assert(first_empty(slots, k));
        let found = choose|k: int| #[trigger] first_empty(slots, k);
        assert(first_empty(slots, found));
        assert(found == k);
        assert(outcomes[k] == outcomes.last());
        assert(all_placed(n, outcomes) == placed(slots, outcomes[k]));
        assert(all_placed(n, outcomes) =~= slots.update(k, Some(result_of(outcomes[k]))));
        assert forall|i: int| 0 <= i < outcomes.len() implies #[trigger] all_placed(
            n,
            outcomes,
        )[i] == Some(result_of(outcomes[i])) by {
            if i < k {
                assert(earlier[i] == outcomes[i]);
            }
        }
    }
}

/// The results of a batch stand in the order of its calls: each call has its own result, and a
/// call whose thread ended without one has the error of that, and takes no result away from
/// another call.
pub proof fn law_results_keep_their_order(outcomes: Seq<WorkerOutcome>)
    requires
        waited_in_order(outcomes),
    ensures
        slots_within(outcomes.len(), outcomes),
        all_placed(outcomes.len(), outcomes).len() == outcomes.len(),
        forall|i: int|
            0 <= i < outcomes.len() ==> settled(
                #[trigger] all_placed(outcomes.len(), outcomes)[i],
            ) == result_of(outcomes[i]),
{
    lemma_filled(outcomes.len(), outcomes);
}

/// A result stays in its place: whatever order the threads are waited for in, and whatever
/// threads end without a result, a call has the result that its thread gave last.
pub proof fn law_results_stay_in_their_places(n: nat, outcomes: Seq<WorkerOutcome>, j: int)
    requires
        slots_within(n, outcomes),
        0 <= j < outcomes.len(),
        outcomes[j] is Finished,
        forall|k: int|
            j < k < outcomes.len() ==> (#[trigger] outcomes[k] matches WorkerOutcome::Finished {
                slot,
                value,
            } ==> slot != outcomes[j]->slot),
    ensures
        settled(all_placed(n, outcomes)[outcomes[j]->slot as int]) == json_text(outcomes[j]->value),
        all_placed(n, outcomes)[outcomes[j]->slot as int] is Some,
        all_placed(n, outcomes).len() == n,
    decreases outcomes.len(),
{
    let earlier = outcomes.drop_last();
    let last = outcomes.last();
    assert forall|k: int| 0 <= k < earlier.len() implies match #[trigger] earlier[k] {
        WorkerOutcome::Finished { slot, value } => slot < n,
        WorkerOutcome::Panicked => true,
    } by {
        assert(earlier[k] == outcomes[k]);
    }
    lemma_places(n, earlier);
    lemma_places(n, outcomes);
    let slots = all_placed(n, earlier);
    assert(outcomes[j]->slot < n);
    if j < outcomes.len() - 1 {
        assert forall|k: int| j < k < earlier.len() implies (
        #[trigger] earlier[k] matches WorkerOutcome::Finished { slot, value } ==> slot
            != earlier[j]->slot) by {
            assert(earlier[k] == outcomes[k]);
        }
        assert(earlier[j] == outcomes[j]);
        law_results_stay_in_their_places(n, earlier, j);
        assert(last == outcomes[outcomes.len() - 1]);
        if last is Panicked {
            if exists|k: int| #[trigger] first_empty(slots, k) {
                let k = choose|k: int| #[trigger] first_empty(slots, k);
                assert(first_empty(slots, k));
                assert(k != outcomes[j]->slot);
            }
        }
    }
}

proof fn lemma_places(n: nat, outcomes: Seq<WorkerOutcome>)
    requires
        slots_within(n, outcomes),
    ensures
        all_placed(n, outcomes).len() == n,
    decreases outcomes.len(),
{
    if outcomes.len() > 0 {
        let earlier = outcomes.drop_last();
        assert forall|k: int| 0 <= k < earlier.len() implies match #[trigger] earlier[k] {
            WorkerOutcome::Finished { slot, value } => slot < n,
            WorkerOutcome::Panicked => true,
        } by {
            assert(earlier[k] == outcomes[k]);
        }
        lemma_places(n, earlier);
        assert(outcomes.last() == outcomes[outcomes.len() - 1]);
    }
}

/// A call of which no thread gave a result has an error for its result: that a thread ended
/// without one, or that nothing was heard of it.
pub proof fn law_missing_results_are_errors(n: nat, outcomes: Seq<WorkerOutcome>, i: int)
    requires
        slots_within(n, outcomes),
        0 <= i < n,
        forall|k: int|
            0 <= k < outcomes.len() ==> (#[trigger] outcomes[k] matches WorkerOutcome::Finished {
                slot,
                value,
            } ==> slot != i),
    ensures
        settled(all_placed(n, outcomes)[i]) == error_result_text(WORKER_PANICKED@) || settled(
            all_placed(n, outcomes)[i],
        ) == error_result_text(WORKER_MISSING@),
        (forall|k: int| 0 <= k < outcomes.len() ==> (#[trigger] outcomes[k]) is Finished)
            ==> settled(all_placed(n, outcomes)[i]) == error_result_text(WORKER_MISSING@),
{
    lemma_unfilled(n, outcomes, i);
}

proof fn lemma_unfilled(n: nat, outcomes: Seq<WorkerOutcome>, i: int)
    requires
        slots_within(n, outcomes),
        0 <= i < n,
        forall|k: int|
            0 <= k < outcomes.len() ==> (#[trigger] outcomes[k] matches WorkerOutcome::Finished {
                slot,
                value,
            } ==> slot != i),
    ensures
        all_placed(n, outcomes)[i] is None || all_placed(n, outcomes)[i] == Some(
            error_result_text(WORKER_PANICKED@),
        ),
        (forall|k: int| 0 <= k < outcomes.len() ==> (#[trigger] outcomes[k]) is Finished)
            ==> all_placed(n, outcomes)[i] is None,
    decreases outcomes.len(),
{
    if outcomes.len() > 0 {
        let earlier = outcomes.drop_last();
        assert forall|k: int| 0 <= k < earlier.len() implies match #[trigger] earlier[k] {
            WorkerOutcome::Finished { slot, value } => slot < n && slot != i,
            WorkerOutcome::Panicked => true,
        } by {
            assert(earlier[k] == outcomes[k]);
        }
        lemma_unfilled(n, earlier, i);
        lemma_places(n, earlier);
        let slots = all_placed(n, earlier);
        let last = outcomes.last();
        assert(last == outcomes[outcomes.len() - 1]);
        if last is Panicked {
            if exists|k: int| #[trigger] first_empty(slots, k) {
                let k = choose|k: int| #[trigger] first_empty(slots, k);
                assert(first_empty(slots, k));
            }
        }
        if forall|k: int| 0 <= k < outcomes.len() ==> (#[trigger] outcomes[k]) is Finished {
            assert forall|k: int| 0 <= k < earlier.len() implies (
            #[trigger] earlier[k]) is Finished by {
                assert(earlier[k] == outcomes[k]);
            }
            assert(last is Finished);
        }
    }
}

} // verus!
