use seq_io_parallel::accumulators::HeaderCheckProcessor;
use seq_io_parallel::errors::PipelineError;
use seq_io_parallel::paired::run_paired_pipeline;
use seq_io_parallel::records::OwnedRecord;
use seq_io_parallel::sources::VecReader;

fn rec(head: &[u8], bases: &[u8]) -> OwnedRecord {
    OwnedRecord { head: head.to_vec(), bases: bases.to_vec(), qual: None }
}

#[test]
fn paired_length_mismatch_within_batch_is_clean() {
    // five records in stream A against three in stream B: exactly three
    // pairs are processed and the run ends cleanly
    let a = VecReader::new(
        vec![vec![
            rec(b"r1", b"AA"),
            rec(b"r2", b"CC"),
            rec(b"r3", b"GG"),
            rec(b"r4", b"TT"),
            rec(b"r5", b"AC"),
        ]],
        false,
    );
    let b = VecReader::new(
        vec![vec![rec(b"r1", b"AA"), rec(b"r2", b"CC"), rec(b"r3", b"GG")]],
        false,
    );
    let (r, workers, _) = run_paired_pipeline(a, b, &HeaderCheckProcessor::new(), 1);
    assert!(r.is_ok());
    assert_eq!(workers[0].pairs, 3);
    assert_eq!(workers[0].batches, 1);
}

#[test]
fn paired_length_mismatch_across_batches_is_clean() {
    // stream A has two batches, stream B only one: the second cycle sees
    // end-of-input on B and stops without an error
    let a = VecReader::new(
        vec![vec![rec(b"x", b"A")], vec![rec(b"y", b"C")]],
        false,
    );
    let b = VecReader::new(vec![vec![rec(b"x", b"A")]], false);
    let (r, workers, _) = run_paired_pipeline(a, b, &HeaderCheckProcessor::new(), 1);
    assert!(r.is_ok());
    assert_eq!(workers[0].pairs, 1);
    assert_eq!(workers[0].batches, 1);
    assert_eq!(workers[0].threads_done, 1);
}

#[test]
fn header_mismatch_fails_at_offending_pair() {
    let a = VecReader::new(
        vec![vec![rec(b"p1", b"A"), rec(b"p2", b"C"), rec(b"p3", b"G"), rec(b"p4", b"T")]],
        false,
    );
    let b = VecReader::new(
        vec![vec![rec(b"p1", b"A"), rec(b"p2", b"C"), rec(b"zz", b"G"), rec(b"p4", b"T")]],
        false,
    );
    let (r, workers, _) = run_paired_pipeline(a, b, &HeaderCheckProcessor::new(), 1);
    assert!(matches!(r, Err(PipelineError::Process(_))));
    // the two matching pairs before the offending index were processed
    assert_eq!(workers[0].pairs, 2);
    // the batch never completed and the failed worker saw no end of thread
    assert_eq!(workers[0].batches, 0);
    assert_eq!(workers[0].threads_done, 0);
}

#[test]
fn matching_streams_process_every_pair() {
    for t in 1..4usize {
        let batches = || {
            vec![
                vec![rec(b"m1", b"A"), rec(b"m2", b"C")],
                vec![rec(b"m3", b"G")],
                vec![rec(b"m4", b"T"), rec(b"m5", b"AA")],
            ]
        };
        let a = VecReader::new(batches(), false);
        let b = VecReader::new(batches(), false);
        let (r, workers, _) = run_paired_pipeline(a, b, &HeaderCheckProcessor::new(), t);
        assert!(r.is_ok());
        let pairs: usize = workers.iter().map(|w| w.pairs).sum();
        assert_eq!(pairs, 5);
        let batches_done: usize = workers.iter().map(|w| w.batches).sum();
        assert_eq!(batches_done, 3);
        for w in &workers {
            assert_eq!(w.threads_done, 1);
        }
    }
}

#[test]
fn source_error_on_shorter_stream_is_reported() {
    // stream A fails after its only batch; B still has data, so the error
    // is reached and reported
    let a = VecReader::new(vec![vec![rec(b"q1", b"A")]], true);
    let b = VecReader::new(vec![vec![rec(b"q1", b"A")], vec![rec(b"q2", b"C")]], false);
    let (r, workers, _) = run_paired_pipeline(a, b, &HeaderCheckProcessor::new(), 1);
    assert!(matches!(r, Err(PipelineError::Source(_))));
    assert_eq!(workers[0].pairs, 1);
}

#[test]
fn source_error_past_the_shorter_stream_is_never_reached() {
    // stream B ends cleanly first, so A's pending hard error is ordinary
    // termination for the pair
    let a = VecReader::new(vec![vec![rec(b"q1", b"A")], vec![rec(b"q2", b"C")]], true);
    let b = VecReader::new(vec![vec![rec(b"q1", b"A")]], false);
    let (r, workers, _) = run_paired_pipeline(a, b, &HeaderCheckProcessor::new(), 1);
    assert!(r.is_ok());
    assert_eq!(workers[0].pairs, 1);
}

#[test]
fn process_parallel_paired_reports_success() {
    let a = VecReader::new(vec![vec![rec(b"s1", b"A")]], false);
    let b = VecReader::new(vec![vec![rec(b"s1", b"A")]], false);
    assert!(a.process_parallel_paired(b, HeaderCheckProcessor::new(), 2).is_ok());
}
