use conversion_queue::job::Error;
use conversion_queue::model::WorkerState;
use conversion_queue::queue::QueueProcessor;
use conversion_queue::worker::{worker, WorkerAction, WorkerEvent};

/// A converter stub: upper case for documents, failure for the text "bad".
fn convert(action: WorkerAction) -> WorkerEvent {
    match action {
        WorkerAction::ConvertInline(text) => {
            if text == "bad" {
                WorkerEvent::InlineConverted(Err("cannot convert".to_string()))
            } else {
                WorkerEvent::InlineConverted(Ok(text.to_uppercase()))
            }
        }
        WorkerAction::ConvertFile { .. } => WorkerEvent::FileConverted(Ok(())),
        other => panic!("nothing to convert: {:?}", other),
    }
}

#[test]
fn worker_waits_for_a_job_then_converts_it() {
    let mut pool = QueueProcessor::new(1).unwrap();
    assert_eq!(worker(&mut pool, 0, WorkerEvent::Wake), WorkerAction::AwaitJob);
    assert_eq!(pool.worker_state(0), Some(WorkerState::Claiming));
    assert_eq!(worker(&mut pool, 0, WorkerEvent::Wake), WorkerAction::AwaitJob);
    let ticket = pool.process_base64("abc".to_string()).unwrap();
    let action = worker(&mut pool, 0, WorkerEvent::Wake);
    assert_eq!(action, WorkerAction::ConvertInline("abc".to_string()));
    assert_eq!(pool.active_workers(), 1);
    assert_eq!(worker(&mut pool, 0, WorkerEvent::Wake), WorkerAction::AwaitConversion);
    assert_eq!(worker(&mut pool, 0, convert(action)), WorkerAction::AwaitJob);
    assert_eq!(pool.active_workers(), 0);
    assert_eq!(pool.poll_base64(ticket), Some(Ok("ABC".to_string())));
}

#[test]
fn worker_goes_straight_to_the_next_job() {
    let mut pool = QueueProcessor::new(1).unwrap();
    let first = pool.process_base64("bad".to_string()).unwrap();
    let second = pool.process_file_path("in.docx", "out").unwrap();
    let action = worker(&mut pool, 0, WorkerEvent::Wake);
    assert_eq!(action, WorkerAction::ConvertInline("bad".to_string()));
    let action = worker(&mut pool, 0, convert(action));
    assert_eq!(
        action,
        WorkerAction::ConvertFile {
            source_path: "in.docx".to_string(),
            output_dir: "out".to_string(),
        }
    );
    assert_eq!(
        pool.poll_base64(first),
        Some(Err(Error::ConversionFailed("cannot convert".to_string())))
    );
    assert_eq!(pool.poll_file_path(second), None);
    assert_eq!(worker(&mut pool, 0, convert(action)), WorkerAction::AwaitJob);
    assert_eq!(pool.poll_file_path(second), Some(Ok(())));
}

#[test]
fn second_worker_awaits_its_turn() {
    let mut pool = QueueProcessor::new(2).unwrap();
    assert_eq!(worker(&mut pool, 0, WorkerEvent::Wake), WorkerAction::AwaitJob);
    assert_eq!(worker(&mut pool, 1, WorkerEvent::Wake), WorkerAction::AwaitTurn);
    pool.process_base64("a".to_string()).unwrap();
    pool.process_base64("b".to_string()).unwrap();
    assert_eq!(worker(&mut pool, 1, WorkerEvent::Wake), WorkerAction::AwaitTurn);
    assert_eq!(
        worker(&mut pool, 0, WorkerEvent::Wake),
        WorkerAction::ConvertInline("a".to_string())
    );
    assert_eq!(
        worker(&mut pool, 1, WorkerEvent::Wake),
        WorkerAction::ConvertInline("b".to_string())
    );
    assert_eq!(pool.active_workers(), 2);
}

#[test]
fn answer_without_a_job_is_ignored() {
    let mut pool = QueueProcessor::new(1).unwrap();
    let stray = WorkerEvent::InlineConverted(Ok("stray".to_string()));
    assert_eq!(worker(&mut pool, 0, stray), WorkerAction::AwaitJob);
    assert_eq!(pool.active_workers(), 0);
    assert_eq!(pool.submitted(), 0);
}

#[test]
fn answer_of_the_wrong_kind_is_a_mismatch_for_the_submitter() {
    let mut pool = QueueProcessor::new(1).unwrap();
    let ticket = pool.process_base64("abc".to_string()).unwrap();
    worker(&mut pool, 0, WorkerEvent::Wake);
    worker(&mut pool, 0, WorkerEvent::FileConverted(Ok(())));
    assert_eq!(pool.poll_base64(ticket), Some(Err(Error::MismatchedResponse)));
}

#[test]
fn missing_or_terminated_worker_stops() {
    let mut pool = QueueProcessor::new(1).unwrap();
    assert_eq!(worker(&mut pool, 1, WorkerEvent::Wake), WorkerAction::Stop);
    pool.worker_terminated(0);
    assert_eq!(worker(&mut pool, 0, WorkerEvent::Wake), WorkerAction::Stop);
    assert_eq!(
        worker(&mut pool, 0, WorkerEvent::FileConverted(Ok(()))),
        WorkerAction::Stop
    );
}

/// Serves `total` requests, at most `limit` of them outstanding at a time,
/// on a pool of `workers`; checks every outcome with `check`.
fn load(workers: usize, limit: usize, total: u64, inline: bool) {
    let mut pool = QueueProcessor::new(workers).unwrap();
    let mut events: Vec<Option<WorkerEvent>> =
        (0..workers).map(|_| Some(WorkerEvent::Wake)).collect();
    let mut actions: Vec<Option<WorkerAction>> = (0..workers).map(|_| None).collect();
    let mut outstanding: Vec<u64> = Vec::new();
    let mut started = 0;
    let mut finished = 0;
    let mut rounds = 0;
    while finished < total {
        while started < total && outstanding.len() < limit {
            let ticket = if inline {
                pool.process_base64(format!("request {}", started)).unwrap()
            } else {
                pool.process_file_path(&format!("results/{}.docx", started), "results").unwrap()
            };
            assert_eq!(ticket, started);
            outstanding.push(ticket);
            started += 1;
        }
        for w in 0..workers {
            if let Some(action) = actions[w].take() {
                events[w] = Some(convert(action));
            }
            let event = events[w].take().unwrap_or(WorkerEvent::Wake);
            match worker(&mut pool, w, event) {
                WorkerAction::AwaitTurn | WorkerAction::AwaitJob => {}
                WorkerAction::Stop | WorkerAction::AwaitConversion => panic!("worker {} lost", w),
                convert_this => actions[w] = Some(convert_this),
            }
            assert!(pool.active_workers() <= workers);
        }
        let mut waiting: Vec<u64> = Vec::new();
        for ticket in outstanding {
            if inline {
                match pool.poll_base64(ticket) {
                    None => waiting.push(ticket),
                    Some(outcome) => {
                        assert_eq!(outcome, Ok(format!("REQUEST {}", ticket)));
                        finished += 1;
                    }
                }
            } else {
                match pool.poll_file_path(ticket) {
                    None => waiting.push(ticket),
                    Some(outcome) => {
                        assert_eq!(outcome, Ok(()));
                        finished += 1;
                    }
                }
            }
        }
        outstanding = waiting;
        rounds += 1;
        assert!(rounds < 10_000);
    }
    assert_eq!(pool.submitted(), total);
    assert_eq!(pool.queued(), 0);
}

#[test]
fn load_test_stream() {
    let max_concurrent: usize = 20;
    let total_requests: u64 = 50;
    load(10, max_concurrent, total_requests, false);
}

#[test]
fn load_test_b64() {
    let max_concurrent: usize = 20;
    let total_requests: u64 = 50;
    load(10, max_concurrent, total_requests, true);
}
