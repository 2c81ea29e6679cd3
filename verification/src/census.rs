//! Facts about counting the workers that are in one phase.

use crate::model::{count_in, Phase, PoolState, WorkerState};
use vstd::prelude::*;

verus! {

/// One if `state` is in `phase`, zero otherwise.
pub open spec fn one_if(state: WorkerState, phase: Phase) -> int {
    if state.phase() == phase {
        1
    } else {
        0
    }
}

/// No more workers are in a phase than there are workers.
pub proof fn lemma_count_in_bounded(workers: Seq<WorkerState>, phase: Phase)
    ensures
        count_in(workers, phase) <= workers.len(),
    decreases workers.len(),
{
    if workers.len() > 0 {
        lemma_count_in_bounded(workers.drop_last(), phase);
    }
}

/// Changing one worker's state changes the count of a phase by what that
/// worker contributed before and contributes after.
pub proof fn lemma_count_in_update(
    workers: Seq<WorkerState>,
    w: int,
    state: WorkerState,
    phase: Phase,
)
    requires
        0 <= w < workers.len(),
    ensures
        count_in(workers.update(w, state), phase) == count_in(workers, phase) - one_if(
            workers[w],
            phase,
        ) + one_if(state, phase),
    decreases workers.len(),
{
    let updated = workers.update(w, state);
    if w == workers.len() - 1 {
        assert(updated.drop_last() =~= workers.drop_last());
    } else {
        lemma_count_in_update(workers.drop_last(), w, state, phase);
        assert(updated.drop_last() =~= workers.drop_last().update(w, state));
    }
}

/// The count of a phase is zero exactly when no worker is in it.
pub proof fn lemma_count_in_zero(workers: Seq<WorkerState>, phase: Phase)
    ensures
        count_in(workers, phase) == 0 <==> forall|w: int|
            0 <= w < workers.len() ==> (#[trigger] workers[w]).phase() != phase,
    decreases workers.len(),
{
    if workers.len() > 0 {
        let front = workers.drop_last();
        lemma_count_in_zero(front, phase);
        if count_in(workers, phase) == 0 {
            assert forall|w: int| 0 <= w < workers.len() implies (#[trigger] workers[w]).phase()
                != phase by {
                if w < front.len() {
                    assert(front[w] == workers[w]);
                }
            }
        } else if workers.last().phase() != phase {
            let w = choose|w: int| 0 <= w < front.len() && (#[trigger] front[w]).phase() == phase;
            assert(workers[w] == front[w]);
        }
    }
}

/// The count of a phase is the number of workers exactly when every worker
/// is in it.
pub proof fn lemma_count_in_all(workers: Seq<WorkerState>, phase: Phase)
    ensures
        count_in(workers, phase) == workers.len() <==> forall|w: int|
            0 <= w < workers.len() ==> (#[trigger] workers[w]).phase() == phase,
    decreases workers.len(),
{
    if workers.len() > 0 {
        let front = workers.drop_last();
        lemma_count_in_all(front, phase);
        lemma_count_in_bounded(front, phase);
        if count_in(workers, phase) == workers.len() {
            assert forall|w: int| 0 <= w < workers.len() implies (#[trigger] workers[w]).phase()
                == phase by {
                if w < front.len() {
                    assert(front[w] == workers[w]);
                }
            }
        } else if workers.last().phase() == phase {
            let w = choose|w: int| 0 <= w < front.len() && (#[trigger] front[w]).phase() != phase;
            assert(workers[w] == front[w]);
        }
    }
}

/// Some worker has not terminated exactly when the terminated workers are
/// fewer than the workers.
pub proof fn lemma_staffed_by_count(s: PoolState)
    ensures
        s.staffed() <==> s.live() > 0,
{
    lemma_count_in_all(s.workers, Phase::Terminated);
    lemma_count_in_bounded(s.workers, Phase::Terminated);
    if s.staffed() {
        let w = choose|w: int|
            0 <= w < s.workers.len() && !((#[trigger] s.workers[w]) is Terminated);
        assert(s.workers[w].phase() != Phase::Terminated);
    }
    if s.live() > 0 {
        let w = choose|w: int|
            0 <= w < s.workers.len() && (#[trigger] s.workers[w]).phase() != Phase::Terminated;
        assert(!(s.workers[w] is Terminated));
    }
}

/// Some worker is claiming exactly when the count of claiming workers is not
/// zero; in a well-formed pool that count is at most one.
pub proof fn lemma_claimers_by_count(s: PoolState)
    ensures
        s.claim_in_progress() <==> count_in(s.workers, Phase::Claiming) > 0,
        s.wf() ==> count_in(s.workers, Phase::Claiming) <= 1,
{
    lemma_count_in_zero(s.workers, Phase::Claiming);
    if s.claim_in_progress() {
        let w = choose|w: int| 0 <= w < s.workers.len() && (#[trigger] s.workers[w]) is Claiming;
        assert(s.workers[w].phase() == Phase::Claiming);
    }
    if count_in(s.workers, Phase::Claiming) > 0 {
        let w = choose|w: int|
            0 <= w < s.workers.len() && (#[trigger] s.workers[w]).phase() == Phase::Claiming;
        assert(s.workers[w] is Claiming);
        if s.wf() {
            let rest = s.workers.update(w, WorkerState::Idle);
            lemma_count_in_update(s.workers, w, WorkerState::Idle, Phase::Claiming);
            lemma_count_in_zero(rest, Phase::Claiming);
            if count_in(rest, Phase::Claiming) > 0 {
                let v = choose|v: int|
                    0 <= v < rest.len() && (#[trigger] rest[v]).phase() == Phase::Claiming;
                assert(s.workers[v] is Claiming);
            }
        }
    }
}

} // verus!
