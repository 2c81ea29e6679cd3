//! The pool as a state machine over mathematical values: the workers, the
//! queue, the replies and three counters, with one transition for each thing
//! that can happen to them.

use crate::job::{ConversionInput, Error, Job, Reply, ReplySlot};
use vstd::prelude::*;

verus! {

/// Where a worker stands in its cycle.
#[derive(Debug, Clone, Copy, PartialEq, Eq)]
pub enum WorkerState {
    /// Waiting for its turn at the queue.
    Idle,
    /// Holding the queue's consumption point, about to pull the next job.
    Claiming,
    /// Running the conversion of the job with this ticket.
    Processing { ticket: u64 },
    /// Gone for good; a terminated worker is never replaced.
    Terminated,
}

/// A worker's state without the job it holds.
pub enum Phase {
    Idle,
    Claiming,
    Processing,
    Terminated,
}

impl WorkerState {
    pub open spec fn phase(self) -> Phase {
        match self {
            WorkerState::Idle => Phase::Idle,
            WorkerState::Claiming => Phase::Claiming,
            WorkerState::Processing { .. } => Phase::Processing,
            WorkerState::Terminated => Phase::Terminated,
        }
    }
}

/// How many of `workers` are in `phase`.
pub open spec fn count_in(workers: Seq<WorkerState>, phase: Phase) -> nat
    decreases workers.len(),
{
    if workers.len() == 0 {
        0
    } else {
        count_in(workers.drop_last(), phase) + if workers.last().phase() == phase {
            1nat
        } else {
            0nat
        }
    }
}

/// The state of a pool.
#[verifier::ext_equal]
pub struct PoolState {
    /// The workers, by their number.
    pub workers: Seq<WorkerState>,
    /// The jobs that no worker has claimed yet, oldest first.
    pub queue: Seq<Job>,
    /// The replies whose readers are still there, by ticket.
    pub replies: Map<u64, ReplySlot>,
    /// How many jobs have been submitted.
    pub submitted: nat,
    /// How many jobs have been claimed.
    pub claimed: nat,
    /// The counter of conversions in flight.
    pub active: nat,
}

impl PoolState {
    /// A fresh pool of `n` idle workers.
    pub open spec fn init(n: nat) -> PoolState {
        PoolState {
            workers: Seq::new(n, |w: int| WorkerState::Idle),
            queue: Seq::empty(),
            replies: Map::empty(),
            submitted: 0,
            claimed: 0,
            active: 0,
        }
    }

    /// The number of workers that have not terminated.
    pub open spec fn live(self) -> nat {
        (self.workers.len() - count_in(self.workers, Phase::Terminated)) as nat
    }

    /// Some worker has not terminated.
    pub open spec fn staffed(self) -> bool {
        exists|w: int| 0 <= w < self.workers.len() && !((#[trigger] self.workers[w]) is Terminated)
    }

    /// Some worker holds the queue's consumption point.
    pub open spec fn claim_in_progress(self) -> bool {
        exists|w: int| 0 <= w < self.workers.len() && (#[trigger] self.workers[w]) is Claiming
    }

    /// Worker `w` is converting the job with ticket `t`.
    pub open spec fn holds(self, w: int, t: u64) -> bool {
        0 <= w < self.workers.len() && self.workers[w] == (WorkerState::Processing { ticket: t })
    }

    /// The job with ticket `t` is queued or being converted.
    pub open spec fn in_flight(self, t: u64) -> bool {
        self.claimed <= t < self.submitted || exists|w: int| self.holds(w, t)
    }

    /// What holds of every pool that `init` and the transitions can produce.
    pub open spec fn wf(self) -> bool {
        &&& self.claimed <= self.submitted <= u64::MAX
        &&& self.active == count_in(self.workers, Phase::Processing)
        &&& forall|w1: int, w2: int|
            0 <= w1 < self.workers.len() && 0 <= w2 < self.workers.len() && (
            #[trigger] self.workers[w1]) is Claiming && (#[trigger] self.workers[w2]) is Claiming
                ==> w1 == w2
        &&& self.queue.len() == self.submitted - self.claimed
        &&& forall|i: int|
            0 <= i < self.queue.len() ==> (#[trigger] self.queue[i]).ticket == self.claimed + i
        &&& forall|w: int, t: u64| #[trigger] self.holds(w, t) ==> t < self.claimed
        &&& forall|w1: int, w2: int, t: u64|
            #[trigger] self.holds(w1, t) && #[trigger] self.holds(w2, t) ==> w1 == w2
        &&& forall|t: u64| #[trigger]
            self.replies.contains_key(t) ==> t < self.submitted && (self.replies[t] is Pending
                <==> self.in_flight(t))
    }

    /// A submission is accepted as long as a worker is left to serve it.
    pub open spec fn accepts(self) -> bool {
        self.staffed()
    }

    /// A job for `input` joins the end of the queue under the next ticket, and
    /// its reply is opened.
    pub open spec fn submit(self, input: ConversionInput) -> PoolState {
        let ticket = self.submitted as u64;
        PoolState {
            queue: self.queue.push(Job { ticket, input }),
            replies: self.replies.insert(ticket, ReplySlot::Pending),
            submitted: self.submitted + 1,
            ..self
        }
    }

    /// Worker `w` may take the consumption point: it is idle and nobody else
    /// is claiming.
    pub open spec fn can_begin_claim(self, w: int) -> bool {
        &&& 0 <= w < self.workers.len()
        &&& self.workers[w] is Idle
        &&& !self.claim_in_progress()
    }

    /// Worker `w` takes the consumption point, if it may.
    pub open spec fn begin_claim(self, w: int) -> PoolState {
        if self.can_begin_claim(w) {
            PoolState { workers: self.workers.update(w, WorkerState::Claiming), ..self }
        } else {
            self
        }
    }

    /// Worker `w` holds the consumption point and a job is waiting.
    pub open spec fn can_claim(self, w: int) -> bool {
        &&& 0 <= w < self.workers.len()
        &&& self.workers[w] is Claiming
        &&& self.queue.len() > 0
    }

    /// Worker `w` pulls the oldest job, releases the consumption point and
    /// starts converting; the counter of conversions in flight goes up.
    pub open spec fn claim(self, w: int) -> PoolState {
        if self.can_claim(w) {
            PoolState {
                workers: self.workers.update(
                    w,
                    WorkerState::Processing { ticket: self.queue[0].ticket },
                ),
                queue: self.queue.skip(1),
                claimed: self.claimed + 1,
                active: self.active + 1,
                ..self
            }
        } else {
            self
        }
    }

    /// The replies after `reply` was written for ticket `t`: it is kept for
    /// the reader if there still is one, and dropped otherwise.
    pub open spec fn written(self, t: u64, reply: Reply) -> Map<u64, ReplySlot> {
        if self.replies.contains_key(t) {
            self.replies.insert(t, ReplySlot::Ready(reply))
        } else {
            self.replies
        }
    }

    /// Worker `w` is converting.
    pub open spec fn can_complete(self, w: int) -> bool {
        0 <= w < self.workers.len() && self.workers[w] is Processing
    }

    /// Worker `w` ends its conversion with `reply`: the reply is written, the
    /// counter goes down and the worker is idle again.
    pub open spec fn complete(self, w: int, reply: Reply) -> PoolState {
        if self.can_complete(w) {
            PoolState {
                workers: self.workers.update(w, WorkerState::Idle),
                replies: self.written(self.workers[w]->ticket, reply),
                active: (self.active - 1) as nat,
                ..self
            }
        } else {
            self
        }
    }

    /// Worker `w` has not terminated yet.
    pub open spec fn can_terminate(self, w: int) -> bool {
        0 <= w < self.workers.len() && !(self.workers[w] is Terminated)
    }

    /// Worker `w` terminates. A job that it was converting is lost, and its
    /// reply says so; the consumption point, if it held it, is free again.
    pub open spec fn terminate(self, w: int) -> PoolState {
        if !self.can_terminate(w) {
            self
        } else if self.workers[w] is Processing {
            PoolState {
                workers: self.workers.update(w, WorkerState::Terminated),
                replies: self.written(self.workers[w]->ticket, Err(Error::Disconnected)),
                active: (self.active - 1) as nat,
                ..self
            }
        } else {
            PoolState { workers: self.workers.update(w, WorkerState::Terminated), ..self }
        }
    }

    /// What the reader of ticket `t` finds: the reply once it is written,
    /// nothing while a worker may still write it, and `Disconnected` where
    /// nobody ever will (no reply is open under `t`, or no worker is left).
    pub open spec fn reply_of(self, t: u64) -> Option<Reply> {
        if !self.replies.contains_key(t) {
            Some(Err(Error::Disconnected))
        } else {
            match self.replies[t] {
                ReplySlot::Ready(reply) => Some(reply),
                ReplySlot::Pending => if self.staffed() {
                    None
                } else {
                    Some(Err(Error::Disconnected))
                },
            }
        }
    }

    /// The reader of ticket `t` looks for its reply; a reply that is found is
    /// taken, and can be read no second time.
    pub open spec fn poll(self, t: u64) -> PoolState {
        if self.reply_of(t) is Some {
            PoolState { replies: self.replies.remove(t), ..self }
        } else {
            self
        }
    }

    /// The reader of ticket `t` gives up. The job stays where it is; what is
    /// or will be written for it is dropped.
    pub open spec fn abandon(self, t: u64) -> PoolState {
        PoolState { replies: self.replies.remove(t), ..self }
    }
}

} // verus!
