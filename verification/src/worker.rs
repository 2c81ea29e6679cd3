//! One step of a worker: from what just happened to it, to what it has to do
//! next.

use crate::job::{
    file_reply, inline_reply, spec_file_reply, spec_inline_reply, ConversionInput, Reply,
};
use crate::model::{PoolState, WorkerState};
use crate::queue::QueueProcessor;
use vstd::prelude::*;

verus! {

/// What a worker reports when it steps.
#[derive(Debug, PartialEq, Eq)]
pub enum WorkerEvent {
    /// Nothing to report: the worker starts, or was woken up.
    Wake,
    /// The converter has answered the inline job in hand.
    InlineConverted(Result<String, String>),
    /// The converter has answered the file job in hand.
    FileConverted(Result<(), String>),
}

/// What a worker has to do after a step.
#[derive(Debug, Clone, PartialEq, Eq)]
pub enum WorkerAction {
    /// Another worker is claiming: wait until the consumption point is free,
    /// and step again.
    AwaitTurn,
    /// The queue is empty: keep the consumption point, wait until a job is
    /// submitted, and step again.
    AwaitJob,
    /// Convert this document, and step again with the converter's answer.
    ConvertInline(String),
    /// Convert this file, and step again with the converter's answer.
    ConvertFile { source_path: String, output_dir: String },
    /// A conversion is under way and its answer is still owed.
    AwaitConversion,
    /// There is no such worker, or it has terminated: stop.
    Stop,
}

/// The reply that a worker writes for the answer it reports.
pub open spec fn reply_for(event: WorkerEvent) -> Reply
    recommends
        !(event is Wake),
{
    match event {
        WorkerEvent::InlineConverted(converted) => spec_inline_reply(converted),
        WorkerEvent::FileConverted(converted) => spec_file_reply(converted),
        WorkerEvent::Wake => arbitrary(),
    }
}

/// The converter call that an input asks for.
pub open spec fn action_for(input: ConversionInput) -> WorkerAction {
    match input {
        ConversionInput::InlinePayload(payload) => WorkerAction::ConvertInline(payload),
        ConversionInput::FileJob { source_path, output_dir } => WorkerAction::ConvertFile {
            source_path,
            output_dir,
        },
    }
}

/// The pool after worker `w` has written the reply for the answer it
/// reports. A worker without a job in hand has nothing to write, and a
/// worker that reports nothing keeps its job.
pub open spec fn after_report(s: PoolState, w: int, event: WorkerEvent) -> PoolState {
    if event is Wake {
        s
    } else {
        s.complete(w, reply_for(event))
    }
}

/// The pool after one step of worker `w`: it writes the reply it reports,
/// then goes for the consumption point, then for the next job, as far as it
/// gets.
pub open spec fn step_state(s: PoolState, w: int, event: WorkerEvent) -> PoolState {
    after_report(s, w, event).begin_claim(w).claim(w)
}

/// What worker `w` has to do after that step.
pub open spec fn step_action(s: PoolState, w: int, event: WorkerEvent) -> WorkerAction {
    let reported = after_report(s, w, event);
    let ready = reported.begin_claim(w);
    if !(0 <= w < s.workers.len()) {
        WorkerAction::Stop
    } else {
        match ready.workers[w] {
            WorkerState::Terminated => WorkerAction::Stop,
            WorkerState::Processing { .. } => WorkerAction::AwaitConversion,
            WorkerState::Idle => WorkerAction::AwaitTurn,
            WorkerState::Claiming => if ready.queue.len() == 0 {
                WorkerAction::AwaitJob
            } else {
                action_for(ready.queue[0].input)
            },
        }
    }
}

/// Runs worker `worker_id` until it has to wait for something outside the
/// pool, and says what for.
///
/// A worker that reports the converter's answer has the reply written for the
/// job in hand (the answer wrapped by `inline_reply` or `file_reply`, whatever
/// kind the job was of), and is idle. An idle worker
/// takes the consumption point unless another worker holds it. A claiming
/// worker pulls the oldest job and is told which conversion to run. A worker
/// that reports nothing while it is processing keeps its job.
pub fn worker(pool: &mut QueueProcessor, worker_id: usize, event: WorkerEvent) -> (action:
    WorkerAction)
    requires
        old(pool).wf(),
    ensures
        final(pool).wf(),
        final(pool)@ == step_state(old(pool)@, worker_id as int, event),
        action == step_action(old(pool)@, worker_id as int, event),
{
    match event {
        WorkerEvent::Wake => {},
        WorkerEvent::InlineConverted(converted) => {
            pool.complete(worker_id, inline_reply(converted));
        },
        WorkerEvent::FileConverted(converted) => {
            pool.complete(worker_id, file_reply(converted));
        },
    }
    if !pool.begin_claim(worker_id) {
        return match pool.worker_state(worker_id) {
            None | Some(WorkerState::Terminated) => WorkerAction::Stop,
            Some(WorkerState::Processing { .. }) => WorkerAction::AwaitConversion,
            _ => WorkerAction::AwaitTurn,
        };
    }
    match pool.claim(worker_id) {
        None => WorkerAction::AwaitJob,
        Some(job) => match job.input {
            ConversionInput::InlinePayload(payload) => WorkerAction::ConvertInline(payload),
            ConversionInput::FileJob { source_path, output_dir } => WorkerAction::ConvertFile {
                source_path,
                output_dir,
            },
        },
    }
}

} // verus!
