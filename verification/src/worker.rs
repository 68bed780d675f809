//! Draining one batch slot: every record (or record pair) is handed to the
//! processor in parse order, then the batch-complete callback fires once.

use vstd::prelude::*;

use crate::errors::PipelineError;
use crate::processor::{PairedParallelProcessor, ParallelProcessor, ProcEvent};
use crate::records::OwnedRecord;
use crate::schedule::{batch_events, pair_events, paired_batch_events, rec_events, view_of_batch};

verus! {

/// Drains one batch: invokes the per-record callback on every record in
/// parse order, then the batch-complete callback, exactly once each. On a
/// callback failure the drain stops at once, so the history gains exactly
/// the records that preceded the failure.
pub fn drain_batch<P: ParallelProcessor>(records: &Vec<OwnedRecord>, processor: &mut P) -> (r:
    Result<(), PipelineError>)
    ensures
        r is Ok ==> final(processor).history() == old(processor).history() + batch_events(
            view_of_batch(records@),
        ),
        r is Err ==> exists|k: int|
            0 <= k <= records@.len() && final(processor).history() == old(processor).history()
                + rec_events(view_of_batch(records@).take(k)),
        r matches Err(e) ==> e is Process,
        final(processor).thread_id_view() == old(processor).thread_id_view(),
{
    let ghost full = view_of_batch(records@);
    let ghost h0 = processor.history();
    let ghost tid0 = processor.thread_id_view();
    let mut i: usize = 0;
    while i < records.len()
        invariant
            0 <= i <= records@.len(),
            full == view_of_batch(records@),
            h0 == old(processor).history(),
            tid0 == old(processor).thread_id_view(),
            processor.history() == h0 + rec_events(full.take(i as int)),
            processor.thread_id_view() == tid0,
        decreases records@.len() - i,
    {
        let rec = &records[i];
        let ghost pre = processor.history();
        match processor.process_record(rec) {
            Ok(()) => {
                proof {
                    assert(full.take(i + 1) =~= full.take(i as int).push(full[i as int]));
                    assert(rec_events(full.take(i + 1)) =~= rec_events(full.take(i as int)).push(
                        ProcEvent::Rec(full[i as int]),
                    ));
                }
            },
            Err(e) => {
                proof {
                    assert(processor.history() == h0 + rec_events(full.take(i as int)));
                }
                return Err(e);
            },
        }
        i += 1;
    }
    proof {
        assert(full.take(records@.len() as int) =~= full);
    }
    match processor.on_batch_complete() {
        Ok(()) => {
            proof {
                assert((h0 + rec_events(full)).push(ProcEvent::BatchDone) =~= h0 + batch_events(
                    full,
                ));
            }
            Ok(())
        },
        Err(e) => {
            proof {
                assert(processor.history() == h0 + rec_events(full.take(full.len() as int)));
            }
            Err(e)
        },
    }
}

/// Drains one paired slot: invokes the per-pair callback on every
/// index-aligned pair, up to the shorter half's length, in parse order, then
/// the batch-complete callback once.
pub fn drain_paired_batch<P: PairedParallelProcessor>(
    records1: &Vec<OwnedRecord>,
    records2: &Vec<OwnedRecord>,
    processor: &mut P,
) -> (r: Result<(), PipelineError>)
    ensures
        r is Ok ==> final(processor).history() == old(processor).history() + paired_batch_events(
            view_of_batch(records1@),
            view_of_batch(records2@),
        ),
        r is Err ==> exists|k: int|
            0 <= k <= pair_events(view_of_batch(records1@), view_of_batch(records2@)).len()
                && final(processor).history() == old(processor).history() + pair_events(
                view_of_batch(records1@),
                view_of_batch(records2@),
            ).take(k),
        r matches Err(e) ==> e is Process,
        final(processor).thread_id_view() == old(processor).thread_id_view(),
{
    let ghost pairs = pair_events(view_of_batch(records1@), view_of_batch(records2@));
    let ghost h0 = processor.history();
    let ghost tid0 = processor.thread_id_view();
    let n = if records1.len() <= records2.len() {
        records1.len()
    } else {
        records2.len()
    };
    proof {
        assert(pairs.len() == n);
    }
    let mut i: usize = 0;
    while i < n
        invariant
            0 <= i <= n,
            n == pairs.len(),
            pairs == pair_events(view_of_batch(records1@), view_of_batch(records2@)),
            n <= records1@.len() && n <= records2@.len(),
            h0 == old(processor).history(),
            tid0 == old(processor).thread_id_view(),
            processor.history() == h0 + pairs.take(i as int),
            processor.thread_id_view() == tid0,
        decreases n - i,
    {
        let r1 = &records1[i];
        let r2 = &records2[i];
        match processor.process_record_pair(r1, r2) {
            Ok(()) => {
                proof {
                    assert(pairs[i as int] == ProcEvent::PairRec(r1@, r2@));
                    assert(pairs.take(i + 1) =~= pairs.take(i as int).push(pairs[i as int]));
                }
            },
            Err(e) => {
                return Err(e);
            },
        }
        i += 1;
    }
    proof {
        assert(pairs.take(n as int) =~= pairs);
    }
    match processor.on_batch_complete() {
        Ok(()) => {
            proof {
                assert((h0 + pairs).push(ProcEvent::BatchDone) =~= h0 + paired_batch_events(
                    view_of_batch(records1@),
                    view_of_batch(records2@),
                ));
            }
            Ok(())
        },
        Err(e) => {
            proof {
                assert(processor.history() == h0 + pairs.take(pairs.len() as int));
            }
            Err(e)
        },
    }
}

} // verus!
