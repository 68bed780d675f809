use seq_io_parallel::accumulators::{bytes_equal, CountingProcessor};
use seq_io_parallel::errors::{first_failure, PipelineError};
use seq_io_parallel::handoff::new_handoff_queue;
use seq_io_parallel::pipeline::{run_reader_thread, run_worker_thread};
use seq_io_parallel::pool_size;
use seq_io_parallel::processor::ParallelProcessor;
use seq_io_parallel::records::OwnedRecord;
use seq_io_parallel::slots::new_slot_pool;
use seq_io_parallel::sources::VecReader;

fn rec(head: &[u8], bases: &[u8], qual: &[u8]) -> OwnedRecord {
    OwnedRecord { head: head.to_vec(), bases: bases.to_vec(), qual: Some(qual.to_vec()) }
}

#[test]
fn pool_size_is_twice_the_worker_count() {
    assert_eq!(pool_size(1), 2);
    assert_eq!(pool_size(7), 14);
}

#[test]
fn reader_then_worker_drains_everything() {
    // one worker: one batch plus one termination token fit the queue
    let pool = new_slot_pool(2);
    let (mut tx, mut rx) = new_handoff_queue(2);
    let reader = VecReader::new(vec![vec![rec(b"a", b"ACGT", b"IIII")]], false);
    assert!(run_reader_thread(reader, &pool, &mut tx, 1).is_ok());
    let (worker, r) = run_worker_thread(&pool, &mut rx, CountingProcessor::new(), 0, usize::MAX);
    assert!(r.is_ok());
    assert_eq!(worker.records, 1);
    assert_eq!(worker.batches, 1);
    assert_eq!(worker.threads_done, 1);
    assert_eq!(worker.get_thread_id(), 0);
}

#[test]
fn termination_tokens_release_every_worker() {
    // two workers, two batches: 2 + 2 tokens fit the queue of four; run
    // sequentially, the first worker drains all batches, the second still
    // observes its own termination token
    let pool = new_slot_pool(4);
    let (mut tx, rx) = new_handoff_queue(4);
    let mut rx0 = rx.clone_endpoint();
    let mut rx1 = rx;
    let reader = VecReader::new(
        vec![vec![rec(b"a", b"AC", b"II"), rec(b"b", b"G", b"I")], vec![rec(b"c", b"T", b"I")]],
        false,
    );
    assert!(run_reader_thread(reader, &pool, &mut tx, 2).is_ok());
    let (w0, r0) = run_worker_thread(&pool, &mut rx0, CountingProcessor::new(), 0, usize::MAX);
    let (w1, r1) = run_worker_thread(&pool, &mut rx1, CountingProcessor::new(), 1, usize::MAX);
    assert!(r0.is_ok());
    assert!(r1.is_ok());
    assert_eq!(w0.records + w1.records, 3);
    assert_eq!(w0.batches + w1.batches, 2);
    assert_eq!(w0.threads_done, 1);
    assert_eq!(w1.threads_done, 1);
}

#[test]
fn reader_reports_disconnection() {
    let pool = new_slot_pool(2);
    let (mut tx, rx) = new_handoff_queue(2);
    drop(rx);
    let reader = VecReader::new(vec![vec![rec(b"a", b"A", b"I")]], false);
    let r = run_reader_thread(reader, &pool, &mut tx, 1);
    assert!(matches!(r, Err(PipelineError::Disconnected)));
}

#[test]
fn worker_treats_disconnection_as_termination() {
    let pool = new_slot_pool(2);
    let (tx, mut rx) = new_handoff_queue(2);
    drop(tx);
    let (worker, r) = run_worker_thread(&pool, &mut rx, CountingProcessor::new(), 0, usize::MAX);
    assert!(r.is_ok());
    assert_eq!(worker.records, 0);
    assert_eq!(worker.threads_done, 1);
}

#[test]
fn worker_rejects_out_of_range_slot_index() {
    let pool = new_slot_pool(2);
    let (mut tx, mut rx) = new_handoff_queue(2);
    assert!(tx.send_token(Some(9)));
    let (worker, r) = run_worker_thread(&pool, &mut rx, CountingProcessor::new(), 0, usize::MAX);
    assert!(matches!(r, Err(PipelineError::Process(_))));
    assert_eq!(worker.records, 0);
}

#[test]
fn worker_stops_when_its_batch_budget_is_spent() {
    let pool = new_slot_pool(2);
    let (mut tx, mut rx) = new_handoff_queue(2);
    assert!(tx.send_token(Some(0)));
    let (worker, r) = run_worker_thread(&pool, &mut rx, CountingProcessor::new(), 0, 0);
    assert!(matches!(r, Err(PipelineError::Process(_))));
    assert_eq!(worker.records, 0);
}

#[test]
fn reader_source_error_still_sends_termination_tokens() {
    let pool = new_slot_pool(2);
    let (mut tx, mut rx) = new_handoff_queue(2);
    let reader = VecReader::new(vec![vec![rec(b"a", b"A", b"I")]], true);
    let r = run_reader_thread(reader, &pool, &mut tx, 1);
    assert!(matches!(r, Err(PipelineError::Source(_))));
    // the data token and the termination token are both queued, so the
    // worker terminates by token even though the sender is still alive
    let (worker, wr) = run_worker_thread(&pool, &mut rx, CountingProcessor::new(), 0, usize::MAX);
    assert!(wr.is_ok());
    assert_eq!(worker.records, 1);
    assert_eq!(worker.threads_done, 1);
    drop(tx);
}

#[test]
fn first_failure_prefers_the_reader() {
    let reader_err: Result<(), PipelineError> =
        Err(PipelineError::Source(String::from("bad input")));
    let worker_err: Result<(), PipelineError> =
        Err(PipelineError::Process(String::from("bad record")));
    let r = first_failure(reader_err, vec![Ok(()), worker_err]);
    assert!(matches!(r, Err(PipelineError::Source(_))));
}

#[test]
fn first_failure_takes_the_lowest_failed_worker() {
    let r = first_failure(
        Ok(()),
        vec![
            Ok(()),
            Err(PipelineError::Process(String::from("first"))),
            Err(PipelineError::Source(String::from("second"))),
        ],
    );
    match r {
        Err(PipelineError::Process(msg)) => assert_eq!(msg, "first"),
        _ => panic!("expected the first failed worker's error"),
    }
}

#[test]
fn first_failure_with_no_failures_is_clean() {
    assert!(first_failure(Ok(()), vec![Ok(()), Ok(())]).is_ok());
}

#[test]
fn bytes_equal_compares_contents() {
    assert!(bytes_equal(b"acgt", b"acgt"));
    assert!(!bytes_equal(b"acgt", b"acga"));
    assert!(!bytes_equal(b"acgt", b"acg"));
    assert!(bytes_equal(b"", b""));
}
