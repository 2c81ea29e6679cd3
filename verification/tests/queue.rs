use conversion_queue::job::{
    file_outcome, file_reply, inline_outcome, inline_reply, ConversionInput, ConversionOutput,
    Error, Job,
};
use conversion_queue::model::WorkerState;
use conversion_queue::queue::QueueProcessor;

fn inline(text: &str) -> ConversionInput {
    ConversionInput::InlinePayload(text.to_string())
}

/// Brings worker `w` from idle to processing and returns the job it pulled.
fn pull(pool: &mut QueueProcessor, w: usize) -> Job {
    assert!(pool.begin_claim(w));
    pool.claim(w).expect("a job is queued")
}

#[test]
fn new_pool_is_idle_and_empty() {
    let pool = QueueProcessor::new(3).unwrap();
    assert_eq!(pool.num_workers(), 3);
    assert_eq!(pool.live_workers(), 3);
    assert_eq!(pool.active_workers(), 0);
    assert_eq!(pool.queued(), 0);
    assert_eq!(pool.submitted(), 0);
    for w in 0..3 {
        assert_eq!(pool.worker_state(w), Some(WorkerState::Idle));
    }
    assert_eq!(pool.worker_state(3), None);
}

#[test]
fn tickets_count_submissions() {
    let mut pool = QueueProcessor::new(1).unwrap();
    assert_eq!(pool.process_base64("a".to_string()), Ok(0));
    assert_eq!(pool.process_file_path("/tmp/x/tmp.docx", "/tmp/x"), Ok(1));
    assert_eq!(pool.process_base64("b".to_string()), Ok(2));
    assert_eq!(pool.submitted(), 3);
    assert_eq!(pool.queued(), 3);
}

#[test]
fn jobs_are_claimed_in_submission_order() {
    let mut pool = QueueProcessor::new(3).unwrap();
    for i in 0..7 {
        assert_eq!(pool.process_base64(format!("job {}", i)), Ok(i));
    }
    let mut order: Vec<u64> = Vec::new();
    let mut payloads: Vec<ConversionInput> = Vec::new();
    let mut w = 0;
    while pool.queued() > 0 {
        let job = pull(&mut pool, w);
        order.push(job.ticket);
        payloads.push(job.input);
        assert!(pool.complete(w, Ok(ConversionOutput::Acknowledged)));
        w = (w + 1) % 3;
    }
    assert_eq!(order, vec![0, 1, 2, 3, 4, 5, 6]);
    for (i, input) in payloads.iter().enumerate() {
        assert_eq!(*input, inline(&format!("job {}", i)));
    }
}

#[test]
fn file_job_carries_both_paths() {
    let mut pool = QueueProcessor::new(1).unwrap();
    let ticket = pool.process_file_path("/tmp/in/tmp.docx", "/tmp/in").unwrap();
    let job = pull(&mut pool, 0);
    assert_eq!(job.ticket, ticket);
    assert_eq!(
        job.input,
        ConversionInput::FileJob {
            source_path: "/tmp/in/tmp.docx".to_string(),
            output_dir: "/tmp/in".to_string(),
        }
    );
    assert!(pool.complete(0, file_reply(Ok(()))));
    assert_eq!(pool.poll_file_path(ticket), Some(Ok(())));
}

#[test]
fn inline_payload_round_trip() {
    let mut pool = QueueProcessor::new(2).unwrap();
    let ticket = pool.process_base64("X".to_string()).unwrap();
    assert_eq!(pool.poll_base64(ticket), None);
    let job = pull(&mut pool, 1);
    assert_eq!(pool.poll_base64(ticket), None);
    let converted = match job.input {
        ConversionInput::InlinePayload(text) => format!("f({})", text),
        other => panic!("wrong input {:?}", other),
    };
    assert!(pool.complete(1, inline_reply(Ok(converted))));
    assert_eq!(pool.poll_base64(ticket), Some(Ok("f(X)".to_string())));
}

#[test]
fn reply_is_read_once() {
    let mut pool = QueueProcessor::new(1).unwrap();
    let ticket = pool.process_base64("X".to_string()).unwrap();
    pull(&mut pool, 0);
    pool.complete(0, inline_reply(Ok("Y".to_string())));
    assert_eq!(pool.poll_base64(ticket), Some(Ok("Y".to_string())));
    assert_eq!(pool.poll_base64(ticket), Some(Err(Error::Disconnected)));
}

#[test]
fn unknown_ticket_is_disconnected() {
    let mut pool = QueueProcessor::new(1).unwrap();
    assert_eq!(pool.poll_base64(0), Some(Err(Error::Disconnected)));
    assert_eq!(pool.poll_file_path(17), Some(Err(Error::Disconnected)));
    assert_eq!(pool.take_reply(u64::MAX), Some(Err(Error::Disconnected)));
}

#[test]
fn converter_failure_reaches_its_submitter_only() {
    let mut pool = QueueProcessor::new(2).unwrap();
    let bad = pool.process_base64("bad".to_string()).unwrap();
    let good = pool.process_base64("good".to_string()).unwrap();
    let first = pull(&mut pool, 0);
    let second = pull(&mut pool, 1);
    assert_eq!((first.ticket, second.ticket), (bad, good));
    assert!(pool.complete(0, inline_reply(Err("unoconvert exited with 1".to_string()))));
    assert_eq!(pool.poll_base64(good), None);
    assert!(pool.complete(1, inline_reply(Ok("pdf".to_string()))));
    assert_eq!(
        pool.poll_base64(bad),
        Some(Err(Error::ConversionFailed("unoconvert exited with 1".to_string())))
    );
    assert_eq!(pool.poll_base64(good), Some(Ok("pdf".to_string())));
}

#[test]
fn failed_file_job_keeps_the_converters_words() {
    let mut pool = QueueProcessor::new(1).unwrap();
    let ticket = pool.process_file_path("a.docx", "out").unwrap();
    pull(&mut pool, 0);
    pool.complete(0, file_reply(Err("no such file".to_string())));
    assert_eq!(
        pool.poll_file_path(ticket),
        Some(Err(Error::ConversionFailed("no such file".to_string())))
    );
}

#[test]
fn wrong_kind_of_reply_is_a_mismatch() {
    let mut pool = QueueProcessor::new(1).unwrap();
    let inline_ticket = pool.process_base64("X".to_string()).unwrap();
    let file_ticket = pool.process_file_path("a.docx", "out").unwrap();
    pull(&mut pool, 0);
    pool.complete(0, file_reply(Ok(())));
    pull(&mut pool, 0);
    pool.complete(0, inline_reply(Ok("pdf".to_string())));
    assert_eq!(pool.poll_base64(inline_ticket), Some(Err(Error::MismatchedResponse)));
    assert_eq!(pool.poll_file_path(file_ticket), Some(Err(Error::MismatchedResponse)));
}

#[test]
fn outcomes_of_each_reply() {
    assert_eq!(
        inline_reply(Ok("p".to_string())),
        Ok(ConversionOutput::InlinePayload("p".to_string()))
    );
    assert_eq!(inline_reply(Err("e".to_string())), Err(Error::ConversionFailed("e".to_string())));
    assert_eq!(file_reply(Ok(())), Ok(ConversionOutput::Acknowledged));
    assert_eq!(file_reply(Err("e".to_string())), Err(Error::ConversionFailed("e".to_string())));
    assert_eq!(
        inline_outcome(Ok(ConversionOutput::InlinePayload("p".to_string()))),
        Ok("p".to_string())
    );
    assert_eq!(inline_outcome(Ok(ConversionOutput::Acknowledged)), Err(Error::MismatchedResponse));
    assert_eq!(inline_outcome(Err(Error::Disconnected)), Err(Error::Disconnected));
    assert_eq!(file_outcome(Ok(ConversionOutput::Acknowledged)), Ok(()));
    assert_eq!(
        file_outcome(Ok(ConversionOutput::InlinePayload("p".to_string()))),
        Err(Error::MismatchedResponse)
    );
    assert_eq!(
        file_outcome(Err(Error::ConversionFailed("e".to_string()))),
        Err(Error::ConversionFailed("e".to_string()))
    );
}

#[test]
fn abandoned_job_is_still_processed_and_its_result_dropped() {
    let mut pool = QueueProcessor::new(1).unwrap();
    let gone = pool.process_base64("gone".to_string()).unwrap();
    let kept = pool.process_base64("kept".to_string()).unwrap();
    pool.abandon(gone);
    assert_eq!(pool.queued(), 2);
    let job = pull(&mut pool, 0);
    assert_eq!(job.ticket, gone);
    assert_eq!(pool.active_workers(), 1);
    assert!(!pool.complete(0, inline_reply(Ok("unread".to_string()))));
    assert_eq!(pool.active_workers(), 0);
    assert_eq!(pool.worker_state(0), Some(WorkerState::Idle));
    assert_eq!(pool.poll_base64(gone), Some(Err(Error::Disconnected)));
    let job = pull(&mut pool, 0);
    assert_eq!(job.ticket, kept);
    assert!(pool.complete(0, inline_reply(Ok("read".to_string()))));
    assert_eq!(pool.poll_base64(kept), Some(Ok("read".to_string())));
}

#[test]
fn abandoning_during_conversion_drops_the_result() {
    let mut pool = QueueProcessor::new(1).unwrap();
    let ticket = pool.process_base64("X".to_string()).unwrap();
    pull(&mut pool, 0);
    pool.abandon(ticket);
    assert!(!pool.complete(0, inline_reply(Ok("Y".to_string()))));
    assert_eq!(pool.worker_state(0), Some(WorkerState::Idle));
    assert_eq!(pool.active_workers(), 0);
}

#[test]
fn abandoning_a_written_reply_drops_it() {
    let mut pool = QueueProcessor::new(1).unwrap();
    let ticket = pool.process_base64("X".to_string()).unwrap();
    pull(&mut pool, 0);
    assert!(pool.complete(0, inline_reply(Ok("Y".to_string()))));
    pool.abandon(ticket);
    assert_eq!(pool.poll_base64(ticket), Some(Err(Error::Disconnected)));
}

#[test]
fn only_one_worker_claims_at_a_time() {
    let mut pool = QueueProcessor::new(3).unwrap();
    assert!(pool.begin_claim(0));
    assert!(!pool.begin_claim(1));
    assert!(!pool.begin_claim(2));
    assert!(pool.begin_claim(0));
    assert_eq!(pool.worker_state(0), Some(WorkerState::Claiming));
    assert_eq!(pool.worker_state(1), Some(WorkerState::Idle));
    assert_eq!(pool.claim(0), None);
    assert_eq!(pool.claim(1), None);
    pool.process_base64("X".to_string()).unwrap();
    assert_eq!(pool.claim(1), None);
    let job = pool.claim(0).unwrap();
    assert_eq!(job.ticket, 0);
    assert_eq!(pool.worker_state(0), Some(WorkerState::Processing { ticket: 0 }));
    assert!(pool.begin_claim(1));
    assert!(!pool.begin_claim(0));
    assert!(!pool.begin_claim(7));
}

#[test]
fn steps_out_of_turn_change_nothing() {
    let mut pool = QueueProcessor::new(2).unwrap();
    pool.process_base64("X".to_string()).unwrap();
    assert_eq!(pool.claim(0), None);
    assert!(!pool.complete(0, Ok(ConversionOutput::Acknowledged)));
    assert!(!pool.complete(5, Ok(ConversionOutput::Acknowledged)));
    assert_eq!(pool.queued(), 1);
    assert_eq!(pool.active_workers(), 0);
    assert_eq!(pool.worker_state(0), Some(WorkerState::Idle));
    assert_eq!(pool.poll_base64(0), None);
}

#[test]
fn active_counter_follows_conversions_and_stays_within_workers() {
    let mut pool = QueueProcessor::new(3).unwrap();
    for i in 0..10 {
        pool.process_base64(format!("{}", i)).unwrap();
    }
    for w in 0..3 {
        assert_eq!(pool.active_workers(), w);
        pull(&mut pool, w);
        assert_eq!(pool.active_workers(), w + 1);
    }
    for w in 0..3 {
        assert!(!pool.begin_claim(w));
        assert_eq!(pool.claim(w), None);
    }
    assert_eq!(pool.active_workers(), 3);
    assert_eq!(pool.queued(), 7);
    pool.complete(1, Ok(ConversionOutput::Acknowledged));
    assert_eq!(pool.active_workers(), 2);
    pull(&mut pool, 1);
    assert_eq!(pool.active_workers(), 3);
}

#[test]
fn two_workers_take_four_jobs_in_two_batches() {
    let mut pool = QueueProcessor::new(2).unwrap();
    let tickets: Vec<u64> =
        (0..4).map(|i| pool.process_base64(format!("doc {}", i)).unwrap()).collect();
    let mut batches = 0;
    let mut most_active = 0;
    while pool.queued() > 0 || pool.active_workers() > 0 {
        let mut started: Vec<(usize, Job)> = Vec::new();
        for w in 0..2 {
            if pool.begin_claim(w) {
                if let Some(job) = pool.claim(w) {
                    started.push((w, job));
                }
            }
        }
        most_active = most_active.max(pool.active_workers());
        assert_eq!(started.len(), 2);
        for (w, job) in started {
            let text = match job.input {
                ConversionInput::InlinePayload(text) => text,
                other => panic!("wrong input {:?}", other),
            };
            assert!(pool.complete(w, inline_reply(Ok(format!("pdf of {}", text)))));
        }
        batches += 1;
    }
    assert_eq!(batches, 2);
    assert_eq!(most_active, 2);
    for (i, ticket) in tickets.iter().enumerate() {
        assert_eq!(pool.poll_base64(*ticket), Some(Ok(format!("pdf of doc {}", i))));
    }
}

#[test]
fn every_submission_completes_exactly_once() {
    for n in 1..5usize {
        for m in 0..12u64 {
            let mut pool = QueueProcessor::new(n).unwrap();
            for i in 0..m {
                assert_eq!(pool.process_base64(format!("{}", i)), Ok(i));
            }
            let mut seen: Vec<u64> = Vec::new();
            let mut steps = 0;
            while pool.queued() > 0 || pool.active_workers() > 0 {
                for w in 0..n {
                    match pool.worker_state(w) {
                        Some(WorkerState::Processing { ticket }) => {
                            seen.push(ticket);
                            assert!(pool.complete(w, inline_reply(Ok(format!("done {}", ticket)))));
                        }
                        Some(WorkerState::Claiming) => {
                            pool.claim(w);
                        }
                        _ => {
                            pool.begin_claim(w);
                        }
                    }
                    assert!(pool.active_workers() <= n);
                    steps += 1;
                }
                assert!(steps <= 3 * (m as usize + 1) * n + n);
            }
            seen.sort();
            assert_eq!(seen, (0..m).collect::<Vec<u64>>());
            for i in 0..m {
                assert_eq!(pool.poll_base64(i), Some(Ok(format!("done {}", i))));
            }
        }
    }
}

#[test]
fn terminated_worker_loses_its_job() {
    let mut pool = QueueProcessor::new(2).unwrap();
    let lost = pool.process_base64("lost".to_string()).unwrap();
    let next = pool.process_base64("next".to_string()).unwrap();
    pull(&mut pool, 0);
    pool.worker_terminated(0);
    assert_eq!(pool.worker_state(0), Some(WorkerState::Terminated));
    assert_eq!(pool.live_workers(), 1);
    assert_eq!(pool.active_workers(), 0);
    assert_eq!(pool.poll_base64(lost), Some(Err(Error::Disconnected)));
    assert_eq!(pool.poll_base64(next), None);
    assert!(!pool.begin_claim(0));
    let job = pull(&mut pool, 1);
    assert_eq!(job.ticket, next);
    pool.complete(1, inline_reply(Ok("pdf".to_string())));
    assert_eq!(pool.poll_base64(next), Some(Ok("pdf".to_string())));
    pool.worker_terminated(0);
    assert_eq!(pool.live_workers(), 1);
}

#[test]
fn terminated_claimer_frees_the_consumption_point() {
    let mut pool = QueueProcessor::new(2).unwrap();
    assert!(pool.begin_claim(0));
    assert!(!pool.begin_claim(1));
    pool.worker_terminated(0);
    assert!(pool.begin_claim(1));
}

#[test]
fn pool_without_workers_disconnects_everyone() {
    let mut pool = QueueProcessor::new(1).unwrap();
    let queued = pool.process_base64("queued".to_string()).unwrap();
    pool.worker_terminated(0);
    assert_eq!(pool.live_workers(), 0);
    assert_eq!(pool.poll_base64(queued), Some(Err(Error::Disconnected)));
    assert_eq!(pool.process_base64("late".to_string()), Err(Error::Disconnected));
    assert_eq!(pool.process_file_path("a.docx", "out"), Err(Error::Disconnected));
    assert_eq!(pool.submitted(), 1);
}

#[test]
fn pool_of_no_workers_takes_no_jobs() {
    let mut pool = QueueProcessor::new(0).unwrap();
    assert_eq!(pool.num_workers(), 0);
    assert_eq!(pool.process_base64("X".to_string()), Err(Error::Disconnected));
    assert_eq!(pool.queued(), 0);
    assert!(!pool.begin_claim(0));
}

#[test]
fn error_messages() {
    assert_eq!(
        Error::ConversionFailed("unoconvert exited with 1".to_string()).message(),
        "unoconvert exited with 1"
    );
    assert_eq!(Error::Disconnected.message(), "worker disconnected before sending result");
    assert_eq!(Error::MismatchedResponse.message(), "worker sent a response of the wrong kind");
}
