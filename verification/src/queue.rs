//! The pool itself: the queue, the workers' states, the replies and the
//! counters, with the operations that submitters and workers perform on them.

use crate::census::{
    lemma_claimers_by_count, lemma_count_in_bounded, lemma_count_in_update, lemma_staffed_by_count,
};
use crate::job::{
    file_outcome, inline_outcome, spec_file_outcome, spec_inline_outcome, ConversionInput, Error,
    Job, Reply, ReplySlot,
};
use crate::model::{Phase, PoolState, WorkerState};
use crate::preservation::{
    lemma_abandon_wf, lemma_begin_claim_wf, lemma_claim_wf, lemma_complete_wf, lemma_init_wf,
    lemma_poll_wf, lemma_submit_wf, lemma_terminate_wf,
};
use std::collections::{HashMap, VecDeque};
use vstd::prelude::*;

verus! {

broadcast use {
    vstd::std_specs::hash::group_hash_axioms,
    vstd::std_specs::vecdeque::group_vec_dequeue_axioms,
};

/// A pool of conversion workers and the jobs submitted to it.
///
/// The pool keeps the books; it runs nothing. Whoever drives it tells it what
/// happened (a job was submitted, a worker woke up, a conversion ended) and is
/// told what to do next.
pub struct QueueProcessor {
    workers: Vec<WorkerState>,
    queue: VecDeque<Job>,
    replies: HashMap<u64, ReplySlot>,
    submitted: u64,
    claimed: u64,
    active: usize,
    live: usize,
    claiming: bool,
}

impl View for QueueProcessor {
    type V = PoolState;

    closed spec fn view(&self) -> PoolState {
        PoolState {
            workers: self.workers@,
            queue: self.queue@,
            replies: self.replies@,
            submitted: self.submitted as nat,
            claimed: self.claimed as nat,
            active: self.active as nat,
        }
    }
}

impl QueueProcessor {
    /// What the pool keeps beside its state, to answer without counting,
    /// agrees with the state.
    pub closed spec fn consistent(&self) -> bool {
        &&& self.live == self@.live()
        &&& self.claiming <==> self@.claim_in_progress()
    }

    /// The pool's state is well-formed, and its own bookkeeping agrees with
    /// it. `new` makes such a pool and every operation keeps it so.
    pub open spec fn wf(&self) -> bool {
        self@.wf() && self.consistent()
    }

    /// Creates a pool of `num_workers` idle workers with nothing queued. It
    /// takes jobs if it has a worker at all.
    pub fn new(num_workers: usize) -> (pool: Result<QueueProcessor, Error>)
        ensures
            pool matches Ok(p) && p.wf() && p@ == PoolState::init(num_workers as nat)
                && p@.accepts() == (num_workers > 0),
    {
        let mut workers: Vec<WorkerState> = Vec::new();
        let mut built: usize = 0;
        while built < num_workers
            invariant
                built <= num_workers,
                workers@ =~= Seq::new(built as nat, |w: int| WorkerState::Idle),
            decreases num_workers - built,
        {
            workers.push(WorkerState::Idle);
            built = built + 1;
        }
        let pool = QueueProcessor {
            workers,
            queue: VecDeque::new(),
            replies: HashMap::new(),
            submitted: 0,
            claimed: 0,
            active: 0,
            live: num_workers,
            claiming: false,
        };
        proof {
            lemma_init_wf(num_workers as nat);
            assert(pool@ =~= PoolState::init(num_workers as nat));
            lemma_staffed_by_count(pool@);
        }
        Ok(pool)
    }

    /// Puts a job for `input` at the end of the queue and opens its reply.
    fn enqueue(&mut self, input: ConversionInput) -> (ticket: Result<u64, Error>)
        requires
            old(self).wf(),
            old(self)@.submitted < u64::MAX,
        ensures
            final(self).wf(),
            match ticket {
                Ok(t) => {
                    &&& old(self)@.accepts()
                    &&& t == old(self)@.submitted
                    &&& final(self)@ == old(self)@.submit(input)
                },
                Err(e) => {
                    &&& !old(self)@.accepts()
                    &&& e == Error::Disconnected
                    &&& final(self)@ == old(self)@
                },
            },
    {
        proof {
            lemma_staffed_by_count(self@);
        }
        if self.live == 0 {
            return Err(Error::Disconnected);
        }
        let ticket: u64 = self.submitted;
        proof {
            lemma_submit_wf(self@, input);
        }
        self.queue.push_back(Job { ticket, input });
        self.replies.insert(ticket, ReplySlot::Pending);
        self.submitted = ticket + 1;
        assert(self@ =~= old(self)@.submit(input));
        Ok(ticket)
    }

    /// Submits a document held in memory. The job waits in the queue behind
    /// those submitted before it. The result is the ticket under which the
    /// reply can be asked for, or `Disconnected` if no worker is left: such a
    /// pool takes no more jobs. Tickets are `u64`, so a pool takes `u64::MAX`
    /// submissions in its life and no more.
    pub fn process_base64(&mut self, docx_base64: String) -> (ticket: Result<u64, Error>)
        requires
            old(self).wf(),
            old(self)@.submitted < u64::MAX,
        ensures
            final(self).wf(),
            match ticket {
                Ok(t) => {
                    &&& old(self)@.accepts()
                    &&& t == old(self)@.submitted
                    &&& final(self)@ == old(self)@.submit(
                        ConversionInput::InlinePayload(docx_base64),
                    )
                },
                Err(e) => {
                    &&& !old(self)@.accepts()
                    &&& e == Error::Disconnected
                    &&& final(self)@ == old(self)@
                },
            },
    {
        self.enqueue(ConversionInput::InlinePayload(docx_base64))
    }

    /// Submits a document on disk, to be converted into `tmp_dir_path`. The
    /// job waits in the queue behind those submitted before it. The result is
    /// the ticket under which the reply can be asked for, or `Disconnected` if
    /// no worker is left. Tickets are `u64`, so a pool takes `u64::MAX`
    /// submissions in its life and no more.
    pub fn process_file_path(&mut self, tmp_docx_path: &str, tmp_dir_path: &str) -> (ticket:
        Result<u64, Error>)
        requires
            old(self).wf(),
            old(self)@.submitted < u64::MAX,
        ensures
            final(self).wf(),
            match ticket {
                Ok(t) => {
                    let input = final(self)@.queue.last().input;
                    &&& old(self)@.accepts()
                    &&& t == old(self)@.submitted
                    &&& final(self)@ == old(self)@.submit(input)
                    &&& input matches ConversionInput::FileJob { source_path, output_dir }
                    &&& source_path@ == tmp_docx_path@
                    &&& output_dir@ == tmp_dir_path@
                },
                Err(e) => {
                    &&& !old(self)@.accepts()
                    &&& e == Error::Disconnected
                    &&& final(self)@ == old(self)@
                },
            },
    {
        let input = ConversionInput::FileJob {
            source_path: tmp_docx_path.to_owned(),
            output_dir: tmp_dir_path.to_owned(),
        };
        self.enqueue(input)
    }

    /// Worker `worker_id` asks for the queue's consumption point. It gets it,
    /// and is then claiming, if it is idle and no other worker is claiming;
    /// otherwise nothing changes. The result says whether the worker is
    /// claiming now.
    pub fn begin_claim(&mut self, worker_id: usize) -> (claiming: bool)
        requires
            old(self).wf(),
        ensures
            final(self).wf(),
            final(self)@ == old(self)@.begin_claim(worker_id as int),
            claiming == (worker_id < final(self)@.workers.len()
                && final(self)@.workers[worker_id as int] is Claiming),
    {
        if worker_id >= self.workers.len() {
            return false;
        }
        match self.workers[worker_id] {
            WorkerState::Claiming => true,
            WorkerState::Idle => {
                if self.claiming {
                    return false;
                }
                proof {
                    let w = worker_id as int;
                    lemma_begin_claim_wf(self@, w);
                    lemma_count_in_update(self.workers@, w, WorkerState::Claiming, Phase::Claiming);
                    lemma_count_in_update(
                        self.workers@,
                        w,
                        WorkerState::Claiming,
                        Phase::Terminated,
                    );
                }
                self.workers[worker_id] = WorkerState::Claiming;
                self.claiming = true;
                assert(self@ =~= old(self)@.begin_claim(worker_id as int));
                assert(self@.workers[worker_id as int] is Claiming);
                true
            },
            _ => false,
        }
    }

    /// Worker `worker_id`, which must be claiming, pulls the oldest job from
    /// the queue. With a job in hand it releases the consumption point and is
    /// processing, and the counter of conversions in flight goes up by one.
    /// With an empty queue, or for a worker that is not claiming, nothing
    /// changes and there is no job.
    pub fn claim(&mut self, worker_id: usize) -> (job: Option<Job>)
        requires
            old(self).wf(),
        ensures
            final(self).wf(),
            final(self)@ == old(self)@.claim(worker_id as int),
            job == if old(self)@.can_claim(worker_id as int) {
                Some(old(self)@.queue[0])
            } else {
                None
            },
    {
        if worker_id >= self.workers.len() {
            return None;
        }
        match self.workers[worker_id] {
            WorkerState::Claiming => {},
            _ => {
                return None;
            },
        }
        let job = match self.queue.pop_front() {
            Some(job) => job,
            None => {
                return None;
            },
        };
        proof {
            let w = worker_id as int;
            let state = WorkerState::Processing { ticket: job.ticket };
            lemma_claim_wf(old(self)@, w);
            lemma_count_in_update(old(self).workers@, w, state, Phase::Processing);
            lemma_count_in_update(old(self).workers@, w, state, Phase::Claiming);
            lemma_count_in_update(old(self).workers@, w, state, Phase::Terminated);
            lemma_count_in_bounded(old(self).workers@.update(w, state), Phase::Processing);
        }
        self.workers[worker_id] = WorkerState::Processing { ticket: job.ticket };
        self.claiming = false;
        self.claimed = self.claimed + 1;
        self.active = self.active + 1;
        assert(self@ =~= old(self)@.claim(worker_id as int));
        proof {
            lemma_claimers_by_count(old(self)@);
            lemma_claimers_by_count(self@);
        }
        Some(job)
    }

    /// Writes `reply` for `ticket`: it is kept for the reader if there still
    /// is one, and dropped otherwise. The result says whether it was kept.
    fn write_reply(&mut self, ticket: u64, reply: Reply) -> (kept: bool)
        ensures
            kept == old(self).replies@.contains_key(ticket),
            final(self).replies@ == if kept {
                old(self).replies@.insert(ticket, ReplySlot::Ready(reply))
            } else {
                old(self).replies@
            },
            final(self).workers == old(self).workers,
            final(self).queue == old(self).queue,
            final(self).submitted == old(self).submitted,
            final(self).claimed == old(self).claimed,
            final(self).active == old(self).active,
            final(self).live == old(self).live,
            final(self).claiming == old(self).claiming,
    {
        if self.replies.contains_key(&ticket) {
            self.replies.insert(ticket, ReplySlot::Ready(reply));
            true
        } else {
            false
        }
    }

    /// Worker `worker_id`, which must be processing, ends its conversion with
    /// `reply`. The reply is written for the submitter, or dropped if the
    /// submitter has given up; either way the counter of conversions in
    /// flight goes down by one and the worker is idle again. The result says
    /// whether the reply was kept for its reader. For a worker that is not
    /// processing nothing changes.
    pub fn complete(&mut self, worker_id: usize, reply: Reply) -> (delivered: bool)
        requires
            old(self).wf(),
        ensures
            final(self).wf(),
            final(self)@ == old(self)@.complete(worker_id as int, reply),
            delivered == (old(self)@.can_complete(worker_id as int)
                && old(self)@.replies.contains_key(old(self)@.workers[worker_id as int]->ticket)),
    {
        if worker_id >= self.workers.len() {
            return false;
        }
        let ticket: u64 = match self.workers[worker_id] {
            WorkerState::Processing { ticket } => ticket,
            _ => {
                return false;
            },
        };
        proof {
            let w = worker_id as int;
            lemma_complete_wf(self@, w, reply);
            lemma_count_in_update(self.workers@, w, WorkerState::Idle, Phase::Processing);
            lemma_count_in_update(self.workers@, w, WorkerState::Idle, Phase::Claiming);
            lemma_count_in_update(self.workers@, w, WorkerState::Idle, Phase::Terminated);
        }
        let delivered = self.write_reply(ticket, reply);
        self.workers[worker_id] = WorkerState::Idle;
        self.active = self.active - 1;
        assert(self@ =~= old(self)@.complete(worker_id as int, reply));
        proof {
            lemma_claimers_by_count(old(self)@);
            lemma_claimers_by_count(self@);
        }
        delivered
    }

    /// Records that worker `worker_id` is gone; it is not replaced. A job
    /// that it was converting is lost: its reply becomes `Disconnected`, and
    /// the counter of conversions in flight goes down by one. If it held the
    /// consumption point, another worker may take it. For a worker that has
    /// terminated before nothing changes.
    pub fn worker_terminated(&mut self, worker_id: usize)
        requires
            old(self).wf(),
        ensures
            final(self).wf(),
            final(self)@ == old(self)@.terminate(worker_id as int),
    {
        if worker_id >= self.workers.len() {
            return ;
        }
        let state = self.workers[worker_id];
        proof {
            let w = worker_id as int;
            lemma_terminate_wf(self@, w);
            lemma_count_in_update(self.workers@, w, WorkerState::Terminated, Phase::Processing);
            lemma_count_in_update(self.workers@, w, WorkerState::Terminated, Phase::Claiming);
            lemma_count_in_update(self.workers@, w, WorkerState::Terminated, Phase::Terminated);
            lemma_count_in_bounded(
                self.workers@.update(w, WorkerState::Terminated),
                Phase::Terminated,
            );
        }
        match state {
            WorkerState::Terminated => {
                return ;
            },
            WorkerState::Processing { ticket } => {
                self.write_reply(ticket, Err(Error::Disconnected));
                self.active = self.active - 1;
            },
            WorkerState::Claiming => {
                self.claiming = false;
            },
            WorkerState::Idle => {},
        }
        self.workers[worker_id] = WorkerState::Terminated;
        self.live = self.live - 1;
        assert(self@ =~= old(self)@.terminate(worker_id as int));
        proof {
            lemma_claimers_by_count(old(self)@);
            lemma_claimers_by_count(self@);
        }
    }

    /// Looks for the reply to `ticket` on behalf of its reader. A reply that
    /// was written is taken out and returned. While the job is queued or being
    /// converted there is nothing yet. Where no reply will ever come (none is
    /// open under `ticket`, because it was read or given up before or never
    /// issued; or no worker is left), the result is `Disconnected`.
    pub fn take_reply(&mut self, ticket: u64) -> (reply: Option<Reply>)
        requires
            old(self).wf(),
        ensures
            final(self).wf(),
            final(self)@ == old(self)@.poll(ticket),
            reply == old(self)@.reply_of(ticket),
    {
        proof {
            lemma_poll_wf(self@, ticket);
            lemma_staffed_by_count(self@);
        }
        let reply = match self.replies.remove(&ticket) {
            None => Some(Err(Error::Disconnected)),
            Some(ReplySlot::Ready(reply)) => Some(reply),
            Some(ReplySlot::Pending) => {
                if self.live == 0 {
                    Some(Err(Error::Disconnected))
                } else {
                    self.replies.insert(ticket, ReplySlot::Pending);
                    None
                }
            },
        };
        assert(self@ =~= old(self)@.poll(ticket));
        reply
    }

    /// Asks for the outcome of the inline job submitted under `ticket`:
    /// nothing while the job is queued or being converted, and after that,
    /// once, the converted document or the error.
    pub fn poll_base64(&mut self, ticket: u64) -> (outcome: Option<Result<String, Error>>)
        requires
            old(self).wf(),
        ensures
            final(self).wf(),
            final(self)@ == old(self)@.poll(ticket),
            outcome == match old(self)@.reply_of(ticket) {
                Some(reply) => Some(spec_inline_outcome(reply)),
                None => None,
            },
    {
        match self.take_reply(ticket) {
            Some(reply) => Some(inline_outcome(reply)),
            None => None,
        }
    }

    /// Asks for the outcome of the file job submitted under `ticket`: nothing
    /// while the job is queued or being converted, and after that, once, the
    /// acknowledgement or the error.
    pub fn poll_file_path(&mut self, ticket: u64) -> (outcome: Option<Result<(), Error>>)
        requires
            old(self).wf(),
        ensures
            final(self).wf(),
            final(self)@ == old(self)@.poll(ticket),
            outcome == match old(self)@.reply_of(ticket) {
                Some(reply) => Some(spec_file_outcome(reply)),
                None => None,
            },
    {
        match self.take_reply(ticket) {
            Some(reply) => Some(file_outcome(reply)),
            None => None,
        }
    }

    /// The reader of `ticket` gives up. Its job stays queued or in conversion
    /// and is still carried out; the reply is dropped, now or when it is
    /// written.
    pub fn abandon(&mut self, ticket: u64)
        requires
            old(self).wf(),
        ensures
            final(self).wf(),
            final(self)@ == old(self)@.abandon(ticket),
    {
        proof {
            lemma_abandon_wf(self@, ticket);
        }
        self.replies.remove(&ticket);
        assert(self@ =~= old(self)@.abandon(ticket));
    }

    /// The number of workers the pool was made with.
    pub fn num_workers(&self) -> (n: usize)
        ensures
            n == self@.workers.len(),
    {
        self.workers.len()
    }

    /// The counter of conversions in flight.
    pub fn active_workers(&self) -> (n: usize)
        ensures
            n == self@.active,
    {
        self.active
    }

    /// The number of workers that have not terminated.
    pub fn live_workers(&self) -> (n: usize)
        requires
            self.wf(),
        ensures
            n == self@.live(),
    {
        self.live
    }

    /// The number of jobs that wait in the queue.
    pub fn queued(&self) -> (n: usize)
        ensures
            n == self@.queue.len(),
    {
        self.queue.len()
    }

    /// The number of jobs submitted so far, which is the next ticket.
    pub fn submitted(&self) -> (n: u64)
        ensures
            n == self@.submitted,
    {
        self.submitted
    }

    /// The state of worker `worker_id`, if there is such a worker.
    pub fn worker_state(&self, worker_id: usize) -> (state: Option<WorkerState>)
        ensures
            state == if worker_id < self@.workers.len() {
                Some(self@.workers[worker_id as int])
            } else {
                None
            },
    {
        if worker_id < self.workers.len() {
            Some(self.workers[worker_id])
        } else {
            None
        }
    }
}

} // verus!
