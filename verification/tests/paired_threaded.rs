use seq_io_parallel::accumulators::HeaderCheckProcessor;
use seq_io_parallel::errors::PipelineError;
use seq_io_parallel::handoff::new_handoff_queue;
use seq_io_parallel::paired_pipeline::{run_paired_reader_thread, run_paired_worker_thread};
use seq_io_parallel::records::OwnedRecord;
use seq_io_parallel::slots::new_paired_slot_pool;
use seq_io_parallel::sources::VecReader;

fn rec(head: &[u8], bases: &[u8]) -> OwnedRecord {
    OwnedRecord { head: head.to_vec(), bases: bases.to_vec(), qual: None }
}

#[test]
fn paired_reader_then_worker_drains_pairs() {
    let pool = new_paired_slot_pool(2);
    let (mut tx, mut rx) = new_handoff_queue(2);
    let a = VecReader::new(vec![vec![rec(b"h1", b"AC"), rec(b"h2", b"GT")]], false);
    let b = VecReader::new(vec![vec![rec(b"h1", b"AC"), rec(b"h2", b"GT")]], false);
    assert!(run_paired_reader_thread(a, b, &pool, &mut tx, 1).is_ok());
    let (worker, r) =
        run_paired_worker_thread(&pool, &mut rx, HeaderCheckProcessor::new(), 0, usize::MAX);
    assert!(r.is_ok());
    assert_eq!(worker.pairs, 2);
    assert_eq!(worker.batches, 1);
    assert_eq!(worker.threads_done, 1);
    assert_eq!(worker.thread_id, Some(0));
}

#[test]
fn paired_reader_stops_cleanly_on_shorter_stream() {
    let pool = new_paired_slot_pool(2);
    let (mut tx, mut rx) = new_handoff_queue(2);
    let a = VecReader::new(vec![vec![rec(b"h1", b"A")], vec![rec(b"h2", b"C")]], false);
    let b = VecReader::new(vec![vec![rec(b"h1", b"A")]], false);
    assert!(run_paired_reader_thread(a, b, &pool, &mut tx, 1).is_ok());
    let (worker, r) =
        run_paired_worker_thread(&pool, &mut rx, HeaderCheckProcessor::new(), 0, usize::MAX);
    assert!(r.is_ok());
    assert_eq!(worker.pairs, 1);
    assert_eq!(worker.batches, 1);
}

#[test]
fn paired_worker_fails_on_header_mismatch() {
    let pool = new_paired_slot_pool(2);
    let (mut tx, mut rx) = new_handoff_queue(2);
    let a = VecReader::new(vec![vec![rec(b"h1", b"A"), rec(b"h2", b"C")]], false);
    let b = VecReader::new(vec![vec![rec(b"h1", b"A"), rec(b"zz", b"C")]], false);
    assert!(run_paired_reader_thread(a, b, &pool, &mut tx, 1).is_ok());
    let (worker, r) =
        run_paired_worker_thread(&pool, &mut rx, HeaderCheckProcessor::new(), 0, usize::MAX);
    assert!(matches!(r, Err(PipelineError::Process(_))));
    assert_eq!(worker.pairs, 1);
    assert_eq!(worker.batches, 0);
    assert_eq!(worker.threads_done, 0);
}

#[test]
fn paired_reader_reports_source_error_in_reach() {
    let pool = new_paired_slot_pool(2);
    let (mut tx, _rx) = new_handoff_queue(2);
    let a = VecReader::new(vec![vec![rec(b"h1", b"A")]], true);
    let b = VecReader::new(vec![vec![rec(b"h1", b"A")], vec![rec(b"h2", b"C")]], false);
    let r = run_paired_reader_thread(a, b, &pool, &mut tx, 1);
    assert!(matches!(r, Err(PipelineError::Source(_))));
}

#[test]
fn paired_reader_reports_disconnection() {
    let pool = new_paired_slot_pool(2);
    let (mut tx, rx) = new_handoff_queue(2);
    drop(rx);
    let a = VecReader::new(vec![vec![rec(b"h1", b"A")]], false);
    let b = VecReader::new(vec![vec![rec(b"h1", b"A")]], false);
    let r = run_paired_reader_thread(a, b, &pool, &mut tx, 1);
    assert!(matches!(r, Err(PipelineError::Disconnected)));
}
