use seq_io_parallel::accumulators::CountingProcessor;
use seq_io_parallel::engine::run_pipeline;
use seq_io_parallel::errors::PipelineError;
use seq_io_parallel::processor::ParallelProcessor;
use seq_io_parallel::records::{MinimalRefRecord, OwnedRecord};
use seq_io_parallel::sources::VecReader;

fn rec(head: &[u8], bases: &[u8], qual: &[u8]) -> OwnedRecord {
    OwnedRecord { head: head.to_vec(), bases: bases.to_vec(), qual: Some(qual.to_vec()) }
}

fn three_batches_seven_records() -> Vec<Vec<OwnedRecord>> {
    vec![
        vec![rec(b"a1", b"ACGT", b"IIII"), rec(b"b2", b"GG", b"II")],
        vec![rec(b"c3", b"T", b"I"), rec(b"d4", b"AC", b"II"), rec(b"e5", b"G", b"I")],
        vec![rec(b"f6", b"CCC", b"III"), rec(b"g7", b"A", b"I")],
    ]
}

#[test]
fn round_trip_completeness_across_workers() {
    for t in 1..5usize {
        let reader = VecReader::new(three_batches_seven_records(), false);
        let (r, workers, _) = run_pipeline(reader, &CountingProcessor::new(), t);
        assert!(r.is_ok());
        assert_eq!(workers.len(), t);
        let total: usize = workers.iter().map(|w| w.records).sum();
        assert_eq!(total, 7);
        let batches: usize = workers.iter().map(|w| w.batches).sum();
        assert_eq!(batches, 3);
    }
}

#[test]
fn ordering_within_batch_matches_parse_order() {
    let reader = VecReader::new(three_batches_seven_records(), false);
    let (r, workers, _) = run_pipeline(reader, &CountingProcessor::new(), 1);
    assert!(r.is_ok());
    assert_eq!(workers[0].head_marks, vec![b'a', b'b', b'c', b'd', b'e', b'f', b'g']);
}

#[test]
fn round_robin_assignment_of_batches() {
    // with two workers, batches 0 and 2 go to worker 0, batch 1 to worker 1
    let reader = VecReader::new(three_batches_seven_records(), false);
    let (r, workers, _) = run_pipeline(reader, &CountingProcessor::new(), 2);
    assert!(r.is_ok());
    assert_eq!(workers[0].head_marks, vec![b'a', b'b', b'f', b'g']);
    assert_eq!(workers[1].head_marks, vec![b'c', b'd', b'e']);
}

#[test]
fn empty_input_still_completes_every_worker() {
    for t in 1..4usize {
        let reader = VecReader::new(Vec::new(), false);
        let (r, workers, _) = run_pipeline(reader, &CountingProcessor::new(), t);
        assert!(r.is_ok());
        assert_eq!(workers.len(), t);
        for w in &workers {
            assert_eq!(w.records, 0);
            assert_eq!(w.batches, 0);
            assert_eq!(w.threads_done, 1);
        }
    }
}

#[test]
fn batch_complete_fires_once_per_batch() {
    for t in 1..4usize {
        let reader = VecReader::new(three_batches_seven_records(), false);
        let (r, workers, _) = run_pipeline(reader, &CountingProcessor::new(), t);
        assert!(r.is_ok());
        let completions: usize = workers.iter().map(|w| w.batches).sum();
        assert_eq!(completions, 3);
    }
}

#[test]
fn empty_batch_still_fires_batch_complete() {
    let reader = VecReader::new(vec![Vec::new()], false);
    let (r, workers, _) = run_pipeline(reader, &CountingProcessor::new(), 1);
    assert!(r.is_ok());
    assert_eq!(workers[0].records, 0);
    assert_eq!(workers[0].batches, 1);
}

#[test]
fn thread_ids_are_assigned_and_distinct() {
    let t = 4usize;
    let reader = VecReader::new(three_batches_seven_records(), false);
    let (r, workers, _) = run_pipeline(reader, &CountingProcessor::new(), t);
    assert!(r.is_ok());
    for (i, w) in workers.iter().enumerate() {
        assert_eq!(w.thread_id, Some(i));
        assert!(w.get_thread_id() < t);
    }
    for a in 0..t {
        for b in 0..t {
            if a != b {
                assert_ne!(workers[a].thread_id, workers[b].thread_id);
            }
        }
    }
}

#[test]
fn source_error_fails_pipeline_after_good_batches() {
    let reader = VecReader::new(three_batches_seven_records(), true);
    let (r, workers, _) = run_pipeline(reader, &CountingProcessor::new(), 2);
    assert!(matches!(r, Err(PipelineError::Source(_))));
    // every good batch was still drained before the error surfaced
    let total: usize = workers.iter().map(|w| w.records).sum();
    assert_eq!(total, 7);
    for w in &workers {
        assert_eq!(w.threads_done, 1);
    }
}

#[test]
fn source_error_on_empty_source() {
    let reader = VecReader::new(Vec::new(), true);
    let (r, workers, _) = run_pipeline(reader, &CountingProcessor::new(), 1);
    assert!(matches!(r, Err(PipelineError::Source(_))));
    assert_eq!(workers[0].records, 0);
}

#[test]
fn process_parallel_reports_success() {
    let reader = VecReader::new(three_batches_seven_records(), false);
    assert!(reader.process_parallel(CountingProcessor::new(), 3).is_ok());
}

#[test]
fn ref_id_is_the_header_up_to_the_first_space() {
    let with_desc = rec(b"read7 length=4", b"ACGT", b"IIII");
    assert_eq!(with_desc.ref_id(), Some("read7"));
    let bare = rec(b"read8", b"A", b"I");
    assert_eq!(bare.ref_id(), Some("read8"));
    let invalid = rec(&[0xff, 0xfe], b"A", b"I");
    assert_eq!(invalid.ref_id(), None);
}

#[test]
fn quality_accessors_follow_the_source_kind() {
    let with_qual = rec(b"q", b"AC", b"II");
    assert!(with_qual.has_quality());
    assert_eq!(with_qual.ref_qual(), b"II");
    let without = OwnedRecord { head: b"f".to_vec(), bases: b"AC".to_vec(), qual: None };
    assert!(!without.has_quality());
    assert_eq!(without.ref_full_seq(), b"AC");
}
