//! Every transition keeps a well-formed pool well-formed.

use crate::census::{lemma_count_in_update, lemma_count_in_zero};
use crate::job::{ConversionInput, Reply};
use crate::model::{Phase, PoolState, WorkerState};
use vstd::prelude::*;

verus! {

/// A fresh pool is well-formed.
pub proof fn lemma_init_wf(n: nat)
    ensures
        PoolState::init(n).wf(),
        PoolState::init(n).live() == n,
{
    let s = PoolState::init(n);
    lemma_count_in_zero(s.workers, Phase::Processing);
    lemma_count_in_zero(s.workers, Phase::Terminated);
}

/// Submitting keeps the pool well-formed, as long as a ticket is left.
pub proof fn lemma_submit_wf(s: PoolState, input: ConversionInput)
    requires
        s.wf(),
        s.submitted < u64::MAX,
    ensures
        s.submit(input).wf(),
{
    let n = s.submit(input);
    let ticket = s.submitted as u64;
    assert forall|w: int, t: u64| n.holds(w, t) == s.holds(w, t) by {}
    assert forall|t: u64| #[trigger] n.replies.contains_key(t) implies t < n.submitted && (
    n.replies[t] is Pending <==> n.in_flight(t)) by {
        if t == ticket {
            assert(n.in_flight(t));
        } else {
            assert(s.replies.contains_key(t));
            assert(n.in_flight(t) == s.in_flight(t));
        }
    }
}

/// Taking the consumption point keeps the pool well-formed.
pub proof fn lemma_begin_claim_wf(s: PoolState, w: int)
    requires
        s.wf(),
    ensures
        s.begin_claim(w).wf(),
{
    if s.can_begin_claim(w) {
        let n = s.begin_claim(w);
        lemma_count_in_update(s.workers, w, WorkerState::Claiming, Phase::Processing);
        assert forall|w1: int, w2: int|
            0 <= w1 < n.workers.len() && 0 <= w2 < n.workers.len() && (
            #[trigger] n.workers[w1]) is Claiming && (#[trigger] n.workers[w2]) is Claiming
            implies w1 == w2 by {
            if w1 != w {
                assert(s.workers[w1] is Claiming);
            }
            if w2 != w {
                assert(s.workers[w2] is Claiming);
            }
        }
        assert forall|v: int, t: u64| n.holds(v, t) == s.holds(v, t) by {}
        assert forall|t: u64| n.in_flight(t) == s.in_flight(t) by {}
    }
}

/// Claiming a job keeps the pool well-formed.
pub proof fn lemma_claim_wf(s: PoolState, w: int)
    requires
        s.wf(),
    ensures
        s.claim(w).wf(),
{
    if s.can_claim(w) {
        let n = s.claim(w);
        let ticket = s.queue[0].ticket;
        assert(ticket == s.claimed);
        lemma_count_in_update(s.workers, w, n.workers[w], Phase::Processing);
        lemma_claimers_kept(s, n, w);
        assert forall|i: int| 0 <= i < n.queue.len() implies (#[trigger] n.queue[i]).ticket
            == n.claimed + i by {
            assert(n.queue[i] == s.queue[i + 1]);
        }
        assert forall|v: int, t: u64| #[trigger] n.holds(v, t) implies t < n.claimed by {
            if v != w {
                assert(s.holds(v, t));
            }
        }
        assert forall|w1: int, w2: int, t: u64| #[trigger]
            n.holds(w1, t) && #[trigger] n.holds(w2, t) implies w1 == w2 by {
            if w1 != w {
                assert(s.holds(w1, t));
            }
            if w2 != w {
                assert(s.holds(w2, t));
            }
        }
        assert forall|t: u64| n.in_flight(t) == s.in_flight(t) by {
            if t == ticket {
                assert(n.holds(w, t));
            } else {
                if s.in_flight(t) && !(s.claimed <= t < s.submitted) {
                    let v = choose|v: int| s.holds(v, t);
                    assert(n.holds(v, t));
                }
                if n.in_flight(t) && !(n.claimed <= t < n.submitted) {
                    let v = choose|v: int| n.holds(v, t);
                    assert(s.holds(v, t));
                }
            }
        }
    }
}

/// Where one worker's state changes and the new one is not `Claiming`,
/// there is still at most one claimer.
proof fn lemma_claimers_kept(s: PoolState, n: PoolState, w: int)
    requires
        s.wf(),
        0 <= w < s.workers.len(),
        n.workers == s.workers.update(w, n.workers[w]),
        !(n.workers[w] is Claiming),
    ensures
        forall|w1: int, w2: int|
            0 <= w1 < n.workers.len() && 0 <= w2 < n.workers.len() && (
            #[trigger] n.workers[w1]) is Claiming && (#[trigger] n.workers[w2]) is Claiming ==> w1
                == w2,
{
    assert forall|w1: int, w2: int|
        0 <= w1 < n.workers.len() && 0 <= w2 < n.workers.len() && (
        #[trigger] n.workers[w1]) is Claiming && (#[trigger] n.workers[w2]) is Claiming implies w1
        == w2 by {
        assert(s.workers[w1] is Claiming);
        assert(s.workers[w2] is Claiming);
    }
}

/// Once worker `w` has let go of ticket `ticket`, that job is no longer in
/// flight, and every other job is where it was.
proof fn lemma_released(s: PoolState, n: PoolState, w: int, ticket: u64)
    requires
        s.wf(),
        s.holds(w, ticket),
        n.workers == s.workers.update(w, n.workers[w]),
        !(n.workers[w] is Processing),
        n.claimed == s.claimed,
        n.submitted == s.submitted,
    ensures
        !n.in_flight(ticket),
        forall|t: u64| t != ticket ==> n.in_flight(t) == s.in_flight(t),
        forall|v: int, t: u64| #[trigger] n.holds(v, t) ==> s.holds(v, t),
{
    assert forall|v: int, t: u64| #[trigger] n.holds(v, t) implies s.holds(v, t) by {}
    if n.in_flight(ticket) {
        let v = choose|v: int| n.holds(v, ticket);
        assert(s.holds(v, ticket));
    }
    assert forall|t: u64| t != ticket implies n.in_flight(t) == s.in_flight(t) by {
        if s.in_flight(t) && !(s.claimed <= t < s.submitted) {
            let v = choose|v: int| s.holds(v, t);
            assert(n.holds(v, t));
        }
        if n.in_flight(t) && !(n.claimed <= t < n.submitted) {
            let v = choose|v: int| n.holds(v, t);
            assert(s.holds(v, t));
        }
    }
}

/// Ending a conversion keeps the pool well-formed.
pub proof fn lemma_complete_wf(s: PoolState, w: int, reply: Reply)
    requires
        s.wf(),
    ensures
        s.complete(w, reply).wf(),
{
    if s.can_complete(w) {
        let n = s.complete(w, reply);
        let ticket = s.workers[w]->ticket;
        assert(s.holds(w, ticket));
        lemma_count_in_update(s.workers, w, WorkerState::Idle, Phase::Processing);
        lemma_claimers_kept(s, n, w);
        lemma_released(s, n, w, ticket);
        assert forall|t: u64| #[trigger] n.replies.contains_key(t) implies t < n.submitted && (
        n.replies[t] is Pending <==> n.in_flight(t)) by {
            assert(s.replies.contains_key(t));
        }
    }
}

/// The loss of a worker keeps the pool well-formed.
pub proof fn lemma_terminate_wf(s: PoolState, w: int)
    requires
        s.wf(),
    ensures
        s.terminate(w).wf(),
{
    if s.can_terminate(w) {
        let n = s.terminate(w);
        lemma_count_in_update(s.workers, w, WorkerState::Terminated, Phase::Processing);
        lemma_claimers_kept(s, n, w);
        if s.workers[w] is Processing {
            let ticket = s.workers[w]->ticket;
            assert(s.holds(w, ticket));
            lemma_released(s, n, w, ticket);
            assert forall|t: u64| #[trigger] n.replies.contains_key(t) implies t < n.submitted
                && (n.replies[t] is Pending <==> n.in_flight(t)) by {
                assert(s.replies.contains_key(t));
            }
        } else {
            assert forall|v: int, t: u64| n.holds(v, t) == s.holds(v, t) by {}
            assert forall|t: u64| n.in_flight(t) == s.in_flight(t) by {}
        }
    }
}

/// Looking for a reply keeps the pool well-formed.
pub proof fn lemma_poll_wf(s: PoolState, t: u64)
    requires
        s.wf(),
    ensures
        s.poll(t).wf(),
{
    let n = s.poll(t);
    assert forall|v: int, u: u64| n.holds(v, u) == s.holds(v, u) by {}
    assert forall|u: u64| n.in_flight(u) == s.in_flight(u) by {}
}

/// Giving up a reply keeps the pool well-formed.
pub proof fn lemma_abandon_wf(s: PoolState, t: u64)
    requires
        s.wf(),
    ensures
        s.abandon(t).wf(),
{
    let n = s.abandon(t);
    assert forall|v: int, u: u64| n.holds(v, u) == s.holds(v, u) by {}
    assert forall|u: u64| n.in_flight(u) == s.in_flight(u) by {}
}

} // verus!
