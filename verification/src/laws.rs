//! What holds of every pool, whatever its history.

use crate::census::{
    lemma_claimers_by_count, lemma_count_in_bounded, lemma_count_in_update, lemma_count_in_zero,
    lemma_staffed_by_count,
};
use crate::job::{
    spec_file_outcome, spec_file_reply, spec_inline_outcome, spec_inline_reply, ConversionOutput,
    Error, Job, Reply,
};
use crate::model::{count_in, Phase, PoolState, WorkerState};
use crate::preservation::{
    lemma_abandon_wf, lemma_begin_claim_wf, lemma_claim_wf, lemma_complete_wf, lemma_init_wf,
    lemma_poll_wf, lemma_submit_wf, lemma_terminate_wf,
};
use crate::trace::{admits, claims, next, run, submissions, Step};
use vstd::prelude::*;

verus! {

/// Every step keeps a well-formed pool well-formed, and keeps its workers'
/// number.
pub proof fn lemma_next_wf(s: PoolState, step: Step)
    requires
        s.wf(),
    ensures
        next(s, step).wf(),
        next(s, step).workers.len() == s.workers.len(),
{
    match step {
        Step::Submit(input) => {
            if admits(s, step) {
                lemma_submit_wf(s, input);
            }
        },
        Step::BeginClaim(w) => lemma_begin_claim_wf(s, w),
        Step::Claim(w) => lemma_claim_wf(s, w),
        Step::Complete(w, reply) => lemma_complete_wf(s, w, reply),
        Step::Terminate(w) => lemma_terminate_wf(s, w),
        Step::Poll(t) => lemma_poll_wf(s, t),
        Step::Abandon(t) => lemma_abandon_wf(s, t),
    }
}

/// Whatever happens to a pool of `n` workers, it stays well-formed and keeps
/// `n` workers.
pub proof fn lemma_history_wf(n: nat, steps: Seq<Step>)
    ensures
        run(PoolState::init(n), steps).wf(),
        run(PoolState::init(n), steps).workers.len() == n,
    decreases steps.len(),
{
    if steps.len() == 0 {
        lemma_init_wf(n);
    } else {
        lemma_history_wf(n, steps.drop_last());
        lemma_next_wf(run(PoolState::init(n), steps.drop_last()), steps.last());
    }
}

/// In a well-formed pool the counter of conversions in flight is the number
/// of processing workers, and so never above the number of workers.
pub proof fn lemma_active_bounded(s: PoolState)
    requires
        s.wf(),
    ensures
        s.active == count_in(s.workers, Phase::Processing),
        s.active <= s.workers.len(),
{
    lemma_count_in_bounded(s.workers, Phase::Processing);
}

/// Whatever happens to a pool of `n` workers, at most `n` conversions are in
/// flight.
pub proof fn lemma_never_more_active_than_workers(n: nat, steps: Seq<Step>)
    ensures
        run(PoolState::init(n), steps).active <= n,
{
    lemma_history_wf(n, steps);
    lemma_active_bounded(run(PoolState::init(n), steps));
}

/// In a well-formed pool at most one worker is claiming.
pub proof fn lemma_one_claimer(s: PoolState, w1: int, w2: int)
    requires
        s.wf(),
        0 <= w1 < s.workers.len(),
        0 <= w2 < s.workers.len(),
        s.workers[w1] is Claiming,
        s.workers[w2] is Claiming,
    ensures
        w1 == w2,
{
}

/// In a well-formed pool no job is in two places: a job that a worker is
/// converting is no longer queued, and no other worker is converting it.
pub proof fn lemma_one_holder(s: PoolState, w1: int, w2: int, t: u64)
    requires
        s.wf(),
        s.holds(w1, t),
    ensures
        s.holds(w2, t) ==> w1 == w2,
        forall|i: int| 0 <= i < s.queue.len() ==> (#[trigger] s.queue[i]).ticket != t,
{
}

/// A claim hands out the oldest job, and that is the one whose ticket is the
/// number of claims before it.
pub proof fn lemma_claim_takes_oldest(s: PoolState, w: int)
    requires
        s.wf(),
        s.can_claim(w),
    ensures
        s.queue[0].ticket == s.claimed,
        s.claim(w).claimed == s.claimed + 1,
        s.claim(w).holds(w, s.queue[0].ticket),
        s.claim(w).queue == s.queue.skip(1),
        forall|i: int|
            0 <= i < s.claim(w).queue.len() ==> (#[trigger] s.claim(w).queue[i]).ticket
                > s.queue[0].ticket,
{
    lemma_claim_wf(s, w);
}

/// The jobs that were submitted during a history are those that were claimed
/// during it, followed by those still queued: jobs leave the queue in the
/// order in which they joined it, none twice and none passed over.
pub proof fn lemma_claims_follow_submissions(s: PoolState, steps: Seq<Step>)
    ensures
        s.queue + submissions(s, steps) == claims(s, steps) + run(s, steps).queue,
    decreases steps.len(),
{
    if steps.len() > 0 {
        let earlier = steps.drop_last();
        let before = run(s, earlier);
        lemma_claims_follow_submissions(s, earlier);
        let joined = s.queue + submissions(s, earlier);
        assert(joined == claims(s, earlier) + before.queue);
        match steps.last() {
            Step::Submit(input) => {
                if admits(before, steps.last()) {
                    let job = Job { ticket: before.submitted as u64, input };
                    assert(s.queue + submissions(s, earlier).push(job) =~= joined.push(job));
                    assert(claims(s, earlier) + before.queue.push(job) =~= joined.push(job));
                }
            },
            Step::Claim(w) => {
                if before.can_claim(w) {
                    assert(claims(s, earlier).push(before.queue[0]) + before.queue.skip(1)
                        =~= joined);
                }
            },
            _ => {},
        }
    }
}

/// In the history of a fresh pool, the `k`-th job claimed is the `k`-th job
/// submitted, and its ticket is `k`.
pub proof fn lemma_claimed_in_submission_order(n: nat, steps: Seq<Step>, k: int)
    requires
        0 <= k < claims(PoolState::init(n), steps).len(),
    ensures
        k < submissions(PoolState::init(n), steps).len(),
        claims(PoolState::init(n), steps)[k] == submissions(PoolState::init(n), steps)[k],
        claims(PoolState::init(n), steps)[k].ticket == k,
{
    let s = PoolState::init(n);
    lemma_claims_follow_submissions(s, steps);
    assert(s.queue + submissions(s, steps) =~= submissions(s, steps));
    assert((claims(s, steps) + run(s, steps).queue)[k] == claims(s, steps)[k]);
    lemma_submission_tickets(n, steps, k);
}

/// In the history of a fresh pool, the `k`-th job submitted has ticket `k`.
pub proof fn lemma_submission_tickets(n: nat, steps: Seq<Step>, k: int)
    requires
        0 <= k < submissions(PoolState::init(n), steps).len(),
    ensures
        submissions(PoolState::init(n), steps)[k].ticket == k,
    decreases steps.len(),
{
    let s = PoolState::init(n);
    lemma_submissions_counted(n, steps);
    if steps.len() > 0 {
        let earlier = steps.drop_last();
        lemma_submissions_counted(n, earlier);
        lemma_history_wf(n, earlier);
        if k < submissions(s, earlier).len() {
            lemma_submission_tickets(n, earlier, k);
        }
    }
}

/// In the history of a fresh pool, the pool has counted every submission.
pub proof fn lemma_submissions_counted(n: nat, steps: Seq<Step>)
    ensures
        submissions(PoolState::init(n), steps).len() == run(PoolState::init(n), steps).submitted,
    decreases steps.len(),
{
    if steps.len() > 0 {
        lemma_submissions_counted(n, steps.drop_last());
    }
}

/// An upper bound on the steps that the workers can still take on the jobs
/// submitted so far: three for a queued job (take the consumption point, pull
/// the job, end the conversion), one for a conversion in flight, one for
/// taking the free consumption point.
pub open spec fn backlog(s: PoolState) -> int {
    3 * s.queue.len() + s.active + if s.claim_in_progress() {
        0int
    } else {
        1int
    }
}

/// `step` is a worker's step, and the worker can take it.
pub open spec fn works(s: PoolState, step: Step) -> bool {
    match step {
        Step::BeginClaim(w) => s.can_begin_claim(w),
        Step::Claim(w) => s.can_claim(w),
        Step::Complete(w, _) => s.can_complete(w),
        _ => false,
    }
}

/// Each step that a worker takes brings the backlog down by one, and the
/// backlog is never negative.
pub proof fn lemma_work_shrinks_backlog(s: PoolState, step: Step)
    requires
        s.wf(),
        works(s, step),
    ensures
        backlog(next(s, step)) == backlog(s) - 1,
        backlog(next(s, step)) >= 0,
{
    let n = next(s, step);
    lemma_next_wf(s, step);
    lemma_claimers_by_count(s);
    lemma_claimers_by_count(n);
    match step {
        Step::BeginClaim(w) => {
            lemma_count_in_update(s.workers, w, WorkerState::Claiming, Phase::Claiming);
        },
        Step::Claim(w) => {
            lemma_count_in_update(s.workers, w, n.workers[w], Phase::Claiming);
        },
        Step::Complete(w, _) => {
            lemma_count_in_update(s.workers, w, WorkerState::Idle, Phase::Claiming);
            lemma_count_in_update(s.workers, w, WorkerState::Idle, Phase::Processing);
        },
        _ => {},
    }
}

/// Every step in `steps` is a worker's step that can be taken when its turn
/// comes.
pub open spec fn all_work(s: PoolState, steps: Seq<Step>) -> bool
    decreases steps.len(),
{
    steps.len() > 0 ==> all_work(s, steps.drop_last()) && works(
        run(s, steps.drop_last()),
        steps.last(),
    )
}

/// Without new submissions the workers cannot go on for ever: they take at
/// most as many steps as the backlog says.
pub proof fn lemma_work_is_bounded(s: PoolState, steps: Seq<Step>)
    requires
        s.wf(),
        all_work(s, steps),
    ensures
        run(s, steps).wf(),
        backlog(run(s, steps)) == backlog(s) - steps.len(),
        steps.len() <= backlog(s),
    decreases steps.len(),
{
    if steps.len() > 0 {
        lemma_work_is_bounded(s, steps.drop_last());
        lemma_next_wf(run(s, steps.drop_last()), steps.last());
        lemma_work_shrinks_backlog(run(s, steps.drop_last()), steps.last());
    }
}

/// As long as a job is queued or in conversion and a worker is left, some
/// worker can take a step: the pool does not get stuck.
pub proof fn lemma_work_never_stalls(s: PoolState) -> (w: int)
    requires
        s.wf(),
        s.staffed(),
        s.queue.len() > 0 || s.active > 0,
    ensures
        s.can_complete(w) || s.can_claim(w) || s.can_begin_claim(w),
{
    lemma_count_in_zero(s.workers, Phase::Processing);
    if s.active > 0 {
        let w = choose|w: int|
            0 <= w < s.workers.len() && (#[trigger] s.workers[w]).phase() == Phase::Processing;
        w
    } else if s.claim_in_progress() {
        let w = choose|w: int| 0 <= w < s.workers.len() && (#[trigger] s.workers[w]) is Claiming;
        w
    } else {
        let w = choose|w: int|
            0 <= w < s.workers.len() && !((#[trigger] s.workers[w]) is Terminated);
        assert(s.workers[w].phase() != Phase::Processing);
        w
    }
}

/// Once nothing is queued and nothing is in conversion, every reader that is
/// still there has its reply.
pub proof fn lemma_rest_means_replied(s: PoolState, t: u64)
    requires
        s.wf(),
        s.queue.len() == 0,
        s.active == 0,
        s.replies.contains_key(t),
    ensures
        s.replies[t] is Ready,
        s.reply_of(t) is Some,
{
    lemma_count_in_zero(s.workers, Phase::Processing);
    if s.in_flight(t) {
        let w = choose|w: int| s.holds(w, t);
        assert(s.workers[w].phase() == Phase::Processing);
    }
}

/// A worker's step neither adds nor removes a live worker, and submits
/// nothing.
pub proof fn lemma_work_keeps_staff(s: PoolState, step: Step)
    requires
        s.wf(),
        works(s, step),
    ensures
        next(s, step).live() == s.live(),
        next(s, step).staffed() == s.staffed(),
        next(s, step).submitted == s.submitted,
{
    lemma_staffed_by_count(s);
    lemma_staffed_by_count(next(s, step));
    let n = next(s, step);
    match step {
        Step::BeginClaim(w) => {
            lemma_count_in_update(s.workers, w, WorkerState::Claiming, Phase::Terminated);
        },
        Step::Claim(w) => {
            lemma_count_in_update(s.workers, w, n.workers[w], Phase::Terminated);
        },
        Step::Complete(w, _) => {
            lemma_count_in_update(s.workers, w, WorkerState::Idle, Phase::Terminated);
        },
        _ => {},
    }
}

/// Running a step and then a history is running the history that starts with
/// that step.
pub proof fn lemma_run_after_first(s: PoolState, step: Step, rest: Seq<Step>)
    ensures
        run(s, seq![step] + rest) == run(next(s, step), rest),
        all_work(s, seq![step] + rest) == (works(s, step) && all_work(next(s, step), rest)),
    decreases rest.len(),
{
    let steps = seq![step] + rest;
    if rest.len() == 0 {
        assert(steps.drop_last() =~= Seq::<Step>::empty());
        assert(steps.last() == step);
        assert(run(s, steps.drop_last()) == s);
        assert(all_work(s, steps.drop_last()));
    } else {
        lemma_run_after_first(s, step, rest.drop_last());
        assert(steps.drop_last() =~= seq![step] + rest.drop_last());
        assert(steps.last() == rest.last());
    }
}

/// Workers that keep stepping finish every job: from any pool with a worker
/// left there is a run of workers' steps, no longer than the backlog, after
/// which nothing is queued, nothing is in conversion, and every reader that
/// was waiting has its reply. By
/// `lemma_work_is_bounded` no run of workers' steps is longer, and by
/// `lemma_work_never_stalls` none ends earlier than that.
pub proof fn lemma_work_gets_done(s: PoolState) -> (steps: Seq<Step>)
    requires
        s.wf(),
        s.staffed(),
    ensures
        all_work(s, steps),
        steps.len() <= backlog(s),
        run(s, steps).wf(),
        run(s, steps).queue.len() == 0,
        run(s, steps).active == 0,
        run(s, steps).submitted == s.submitted,
        run(s, steps).replies.dom() == s.replies.dom(),
        forall|t: u64| #[trigger]
            run(s, steps).replies.contains_key(t) ==> run(s, steps).replies[t] is Ready,
    decreases backlog(s),
{
    if s.queue.len() == 0 && s.active == 0 {
        let steps = Seq::<Step>::empty();
        assert forall|t: u64| #[trigger] s.replies.contains_key(t) implies s.replies[t]
            is Ready by {
            lemma_rest_means_replied(s, t);
        }
        steps
    } else {
        let w = lemma_work_never_stalls(s);
        let step = if s.can_complete(w) {
            Step::Complete(w, Ok(ConversionOutput::Acknowledged))
        } else if s.can_claim(w) {
            Step::Claim(w)
        } else {
            Step::BeginClaim(w)
        };
        let n = next(s, step);
        lemma_work_shrinks_backlog(s, step);
        lemma_next_wf(s, step);
        lemma_work_keeps_staff(s, step);
        assert(n.replies.dom() =~= s.replies.dom());
        let rest = lemma_work_gets_done(n);
        let steps = seq![step] + rest;
        lemma_run_after_first(s, step, rest);
        steps
    }
}

/// What a worker writes for a waiting reader is what that reader finds, and
/// finds once: after it was taken, the ticket yields `Disconnected`.
pub proof fn lemma_reply_reaches_reader(s: PoolState, w: int, t: u64, reply: Reply)
    requires
        s.wf(),
        s.holds(w, t),
        s.replies.contains_key(t),
    ensures
        s.complete(w, reply).reply_of(t) == Some(reply),
        s.complete(w, reply).poll(t).reply_of(t) == Some(
            Err::<ConversionOutput, Error>(Error::Disconnected),
        ),
{
}

/// A converted document comes back to the submitter of an inline job as the
/// converter returned it, and an acknowledgement to the submitter of a file
/// job.
pub proof fn lemma_success_round_trip(converted: String)
    ensures
        spec_inline_outcome(spec_inline_reply(Ok(converted))) == Ok::<String, Error>(converted),
        spec_file_outcome(spec_file_reply(Ok(()))) == Ok::<(), Error>(()),
{
}

/// A converter failure comes back to the submitter as `ConversionFailed`
/// with the converter's own text, for either kind of job.
pub proof fn lemma_failure_round_trip(detail: String)
    ensures
        spec_inline_outcome(spec_inline_reply(Err(detail))) == Err::<String, Error>(
            Error::ConversionFailed(detail),
        ),
        spec_file_outcome(spec_file_reply(Err(detail))) == Err::<(), Error>(
            Error::ConversionFailed(detail),
        ),
{
}

/// A reply of the wrong kind is reported as `MismatchedResponse`, and nothing
/// else is.
pub proof fn lemma_mismatch(reply: Reply)
    ensures
        spec_inline_outcome(reply) == Err::<String, Error>(Error::MismatchedResponse) <==> reply
            == Ok::<ConversionOutput, Error>(ConversionOutput::Acknowledged) || reply == Err::<
            ConversionOutput,
            Error,
        >(Error::MismatchedResponse),
        spec_file_outcome(reply) == Err::<(), Error>(Error::MismatchedResponse) <==> reply
            is Ok && reply->Ok_0 is InlinePayload || reply == Err::<ConversionOutput, Error>(
            Error::MismatchedResponse,
        ),
{
}

/// The end of one conversion, whatever its result, touches no other
/// submission: every other reply, the queue and every other worker are as
/// they were.
pub proof fn lemma_complete_is_local(s: PoolState, w: int, reply: Reply, other: u64)
    requires
        s.wf(),
        s.can_complete(w),
        other != s.workers[w]->ticket,
    ensures
        s.complete(w, reply).replies.contains_key(other) == s.replies.contains_key(other),
        s.complete(w, reply).replies[other] == s.replies[other],
        s.complete(w, reply).reply_of(other) == s.reply_of(other),
        s.complete(w, reply).queue == s.queue,
        forall|v: int|
            0 <= v < s.workers.len() && v != w ==> s.complete(w, reply).workers[v]
                == s.workers[v],
{
    let n = s.complete(w, reply);
    if s.staffed() {
        let v = choose|v: int|
            0 <= v < s.workers.len() && !((#[trigger] s.workers[v]) is Terminated);
        assert(!(n.workers[v] is Terminated));
    }
    assert(!(n.workers[w] is Terminated));
}

/// A reply that has been written stays as it is until its reader takes it or
/// gives up: no worker's step and no other reader's step changes it.
pub proof fn lemma_written_once(s: PoolState, step: Step, t: u64)
    requires
        s.wf(),
        s.replies.contains_key(t),
        s.replies[t] is Ready,
        step != Step::Poll(t),
        step != Step::Abandon(t),
    ensures
        next(s, step).replies.contains_key(t),
        next(s, step).replies[t] == s.replies[t],
{
    match step {
        Step::Complete(w, _) => {
            if s.can_complete(w) {
                assert(s.holds(w, s.workers[w]->ticket));
            }
        },
        Step::Terminate(w) => {
            if s.can_terminate(w) && s.workers[w] is Processing {
                assert(s.holds(w, s.workers[w]->ticket));
            }
        },
        _ => {},
    }
}

/// A reader that gives up takes nothing from the workers: its job stays
/// queued or in conversion, and every other reply stays as it is.
pub proof fn lemma_abandon_keeps_work(s: PoolState, t: u64)
    ensures
        s.abandon(t).queue == s.queue,
        s.abandon(t).workers == s.workers,
        s.abandon(t).active == s.active,
        s.abandon(t).claimed == s.claimed,
        !s.abandon(t).replies.contains_key(t),
        forall|other: u64|
            other != t ==> s.abandon(t).replies.contains_key(other) == s.replies.contains_key(
                other,
            ) && s.abandon(t).replies[other] == s.replies[other],
{
}

/// A conversion whose reader has given up still ends like any other: the
/// worker is idle again, the counter goes down by one, the pool is
/// well-formed; the reply is dropped and nothing is kept under its ticket.
pub proof fn lemma_abandoned_job_completes(s: PoolState, w: int, t: u64, reply: Reply)
    requires
        s.wf(),
        s.holds(w, t),
    ensures
        s.abandon(t).complete(w, reply).wf(),
        s.abandon(t).complete(w, reply).workers[w] is Idle,
        s.abandon(t).complete(w, reply).active == s.active - 1,
        !s.abandon(t).complete(w, reply).replies.contains_key(t),
        s.abandon(t).complete(w, reply).replies == s.replies.remove(t),
{
    lemma_abandon_wf(s, t);
    lemma_complete_wf(s.abandon(t), w, reply);
    lemma_count_in_update(s.workers, w, WorkerState::Idle, Phase::Processing);
}

/// A reply is open only for a job that was submitted, and it is pending
/// exactly as long as that job is queued or in conversion: no reply is
/// written for a job that was not carried out, and none is kept back.
pub proof fn lemma_pending_means_in_flight(s: PoolState, t: u64)
    requires
        s.wf(),
        s.replies.contains_key(t),
    ensures
        t < s.submitted,
        s.replies[t] is Pending <==> s.in_flight(t),
{
}

/// When the last worker is gone, every reader learns it: no ticket stays
/// without an answer, and no further submission is accepted.
pub proof fn lemma_no_worker_means_disconnected(s: PoolState, t: u64)
    requires
        s.wf(),
        !s.staffed(),
    ensures
        s.reply_of(t) is Some,
        !s.accepts(),
        !(s.replies.contains_key(t) && s.replies[t] is Ready) ==> s.reply_of(t) == Some(
            Err::<ConversionOutput, Error>(Error::Disconnected),
        ),
{
}

} // verus!
