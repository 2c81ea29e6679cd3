//! Histories of a pool: the things that can happen to it, one after another,
//! and what a history leaves behind.

use crate::job::{ConversionInput, Job, Reply};
use crate::model::PoolState;
use vstd::prelude::*;

verus! {

/// One thing that happens to a pool.
pub enum Step {
    /// A job for this input is submitted.
    Submit(ConversionInput),
    /// This worker asks for the consumption point.
    BeginClaim(int),
    /// This worker pulls the next job.
    Claim(int),
    /// This worker ends its conversion with this reply.
    Complete(int, Reply),
    /// This worker terminates.
    Terminate(int),
    /// The reader of this ticket looks for its reply.
    Poll(u64),
    /// The reader of this ticket gives up.
    Abandon(u64),
}

/// The submission in `step` is taken up: a worker is left and so is a ticket.
pub open spec fn admits(s: PoolState, step: Step) -> bool {
    step is Submit && s.accepts() && s.submitted < u64::MAX
}

/// The pool after `step`. A step that cannot be taken leaves it as it is.
pub open spec fn next(s: PoolState, step: Step) -> PoolState {
    match step {
        Step::Submit(input) => if admits(s, step) {
            s.submit(input)
        } else {
            s
        },
        Step::BeginClaim(w) => s.begin_claim(w),
        Step::Claim(w) => s.claim(w),
        Step::Complete(w, reply) => s.complete(w, reply),
        Step::Terminate(w) => s.terminate(w),
        Step::Poll(t) => s.poll(t),
        Step::Abandon(t) => s.abandon(t),
    }
}

/// The pool after all of `steps`, in order.
pub open spec fn run(s: PoolState, steps: Seq<Step>) -> PoolState
    decreases steps.len(),
{
    if steps.len() == 0 {
        s
    } else {
        next(run(s, steps.drop_last()), steps.last())
    }
}

/// The jobs that joined the queue during `steps`, in order.
pub open spec fn submissions(s: PoolState, steps: Seq<Step>) -> Seq<Job>
    decreases steps.len(),
{
    if steps.len() == 0 {
        Seq::empty()
    } else {
        let before = run(s, steps.drop_last());
        let earlier = submissions(s, steps.drop_last());
        if admits(before, steps.last()) {
            earlier.push(Job { ticket: before.submitted as u64, input: steps.last()->Submit_0 })
        } else {
            earlier
        }
    }
}

/// The jobs that workers pulled from the queue during `steps`, in order.
pub open spec fn claims(s: PoolState, steps: Seq<Step>) -> Seq<Job>
    decreases steps.len(),
{
    if steps.len() == 0 {
        Seq::empty()
    } else {
        let before = run(s, steps.drop_last());
        let earlier = claims(s, steps.drop_last());
        if steps.last() matches Step::Claim(w) && before.can_claim(w) {
            earlier.push(before.queue[0])
        } else {
            earlier
        }
    }
}

} // verus!
