//! The reader-thread and worker-thread protocols of the concurrent paired
//! pipeline: the reader advances two sources in lock-step, fills both
//! halves of a paired slot per cycle, and publishes the slot's index; when
//! either source runs out the loop ends — a length mismatch between the
//! streams is ordinary termination, not an error. Workers mirror the
//! single-stream protocol over paired slots.

use vstd::prelude::*;
use vstd::string::StringExecFns;

use crate::engine::{lemma_rr_advance, ParallelReader, ReadOutcome};
use crate::errors::PipelineError;
use crate::handoff::{TokenReceiver, TokenSender};
use crate::paired::{paired_count, paired_source_error};
use crate::pipeline::{
    data_tokens, lemma_none_count_all_some, lemma_none_count_last_none, lemma_take_push,
    none_count, reader_tokens, termination_tokens,
};
use crate::processor::{PairedParallelProcessor, ProcEvent};
use crate::records::{OwnedRecord, RecordData};
use crate::schedule::{pair_events, paired_session_events, view_of_batch};
use crate::slots::{
    num_paired_slots, paired_slot_count, store_paired_slot, take_paired_slot, PairedSlotPool,
};
use crate::worker::drain_paired_batch;

verus! {

/// The paired reader-thread protocol: fills the pool's paired slots in
/// strict round-robin order, one batch from each source per cycle,
/// publishing each filled slot's index; when either source reports
/// end-of-input, or a hard source error stops the filling, it publishes one
/// termination token per worker, then returns the stored error if any.
pub fn run_paired_reader_thread<R: ParallelReader>(
    reader1: R,
    reader2: R,
    pool: &PairedSlotPool,
    tx: &mut TokenSender,
    num_threads: usize,
) -> (r: Result<(), PipelineError>)
    requires
        1 <= num_threads,
        num_threads <= usize::MAX / 2,
        paired_slot_count(*pool) == 2 * num_threads,
    ensures
        r is Ok ==> !paired_source_error(
            reader1.batches().len() as int,
            reader1.source_fails(),
            reader2.batches().len() as int,
            reader2.source_fails(),
        ) && final(tx).sent@ == old(tx).sent@ + reader_tokens(
            paired_count(reader1.batches(), reader2.batches()),
            num_threads as int,
        ),
        r matches Err(e) ==> e is Source || e is Disconnected,
        r matches Err(e) && e is Source ==> paired_source_error(
            reader1.batches().len() as int,
            reader1.source_fails(),
            reader2.batches().len() as int,
            reader2.source_fails(),
        ) && final(tx).sent@ == old(tx).sent@ + reader_tokens(
            paired_count(reader1.batches(), reader2.batches()),
            num_threads as int,
        ),
        r matches Err(e) && e is Disconnected ==> exists|m: int|
            #![auto]
            0 <= m && final(tx).sent@ == old(tx).sent@ + reader_tokens(
                paired_count(reader1.batches(), reader2.batches()),
                num_threads as int,
            ).take(m),
{
    let ghost bs1 = reader1.batches();
    let ghost bs2 = reader2.batches();
    let ghost n = paired_count(bs1, bs2);
    let ghost src_err = paired_source_error(
        bs1.len() as int,
        reader1.source_fails(),
        bs2.len() as int,
        reader2.source_fails(),
    );
    let ghost t = num_threads as int;
    let ghost size = 2 * t;
    let ghost sent0 = tx.sent@;
    let mut source1 = reader1;
    let mut source2 = reader2;
    let pool_len = num_paired_slots(pool);
    let mut idx: usize = 0;
    let ghost mut j: int = 0;
    let mut stored: Option<PipelineError> = None;
    loop
        invariant_except_break
            stored is None,
            j + source1.batches().len() == bs1.len(),
            j + source2.batches().len() == bs2.len(),
            source1.batches() == bs1.skip(j),
            source2.batches() == bs2.skip(j),
            source1.source_fails() == reader1.source_fails(),
            source2.source_fails() == reader2.source_fails(),
        invariant
            1 <= num_threads,
            num_threads <= usize::MAX / 2,
            t == num_threads as int,
            size == 2 * t,
            pool_len == 2 * num_threads,
            paired_slot_count(*pool) == 2 * num_threads,
            bs1 == reader1.batches(),
            bs2 == reader2.batches(),
            n == paired_count(bs1, bs2),
            src_err == paired_source_error(
                bs1.len() as int,
                reader1.source_fails(),
                bs2.len() as int,
                reader2.source_fails(),
            ),
            sent0 == old(tx).sent@,
            0 <= j <= n,
            idx < pool_len,
            idx as int == j % size,
            tx.sent@ == sent0 + data_tokens(j, size),
        ensures
            j == n,
            tx.sent@ == sent0 + data_tokens(j, size),
            stored is None ==> !src_err,
            stored matches Some(e) ==> src_err && e is Source,
        decreases source1.batches().len() + source2.batches().len(),
    {
        let taken = take_paired_slot(pool, idx);
        let mut batch1 = taken.0;
        let mut batch2 = taken.1;
        let o1 = source1.fill_next(&mut batch1);
        let o2 = source2.fill_next(&mut batch2);
        match (o1, o2) {
            (ReadOutcome::Filled, ReadOutcome::Filled) => {
                proof {
                    assert(bs1.skip(j).drop_first() =~= bs1.skip(j + 1));
                    assert(bs2.skip(j).drop_first() =~= bs2.skip(j + 1));
                }
                store_paired_slot(pool, idx, batch1, batch2);
                let ok = tx.send_token(Some(idx));
                if !ok {
                    proof {
                        assert(data_tokens(j, size) =~= reader_tokens(n, t).take(j));
                    }
                    return Err(PipelineError::Disconnected);
                }
                proof {
                    assert(data_tokens(j + 1, size) =~= data_tokens(j, size).push(
                        Some((j % size) as usize),
                    ));
                    lemma_rr_advance(j, size);
                    j = j + 1;
                }
                idx = if idx + 1 == pool_len {
                    0
                } else {
                    idx + 1
                };
            },
            (ReadOutcome::Failed(e), ReadOutcome::Filled) => {
                proof {
                    assert(j == bs1.len() && j < bs2.len());
                    assert(j == n && src_err);
                }
                stored = Some(e);
                break ;
            },
            (ReadOutcome::Failed(e), ReadOutcome::Failed(_)) => {
                proof {
                    assert(j == bs1.len() && j == bs2.len());
                    assert(j == n && src_err);
                }
                stored = Some(e);
                break ;
            },
            (ReadOutcome::Filled, ReadOutcome::Failed(e)) => {
                proof {
                    assert(j == bs2.len() && j < bs1.len());
                    assert(j == n && src_err);
                }
                stored = Some(e);
                break ;
            },
            _ => {
                proof {
                    assert(j == n);
                    assert(!src_err);
                }
                break ;
            },
        }
    }

    let mut k: usize = 0;
    while k < num_threads
        invariant
            1 <= num_threads,
            t == num_threads as int,
            size == 2 * t,
            n == paired_count(reader1.batches(), reader2.batches()),
            j == n,
            stored is None ==> !paired_source_error(
                reader1.batches().len() as int,
                reader1.source_fails(),
                reader2.batches().len() as int,
                reader2.source_fails(),
            ),
            stored matches Some(e) ==> paired_source_error(
                reader1.batches().len() as int,
                reader1.source_fails(),
                reader2.batches().len() as int,
                reader2.source_fails(),
            ) && e is Source,
            sent0 == old(tx).sent@,
            k <= num_threads,
            tx.sent@ == sent0 + data_tokens(n, size) + termination_tokens(k as int),
        decreases num_threads - k,
    {
        let ok = tx.send_token(None);
        if !ok {
            proof {
                assert((data_tokens(n, size) + termination_tokens(k as int)) =~= reader_tokens(
                    n,
                    t,
                ).take(n + k));
                assert(tx.sent@ =~= sent0 + (data_tokens(n, size) + termination_tokens(k as int)));
                assert(tx.sent@ == old(tx).sent@ + reader_tokens(n, t).take(n + k));
            }
            return Err(PipelineError::Disconnected);
        }
        proof {
            assert((sent0 + data_tokens(n, size) + termination_tokens(k as int)).push(
                None::<usize>,
            ) =~= sent0 + data_tokens(n, size) + termination_tokens(k as int + 1));
        }
        k += 1;
    }
    proof {
        assert(tx.sent@ =~= sent0 + reader_tokens(n, t));
    }
    match stored {
        Some(e) => Err(e),
        None => Ok(()),
    }
}

/// The paired worker-thread protocol: mirrors the single-stream worker
/// over paired slots — drains every published slot's pair of batches until
/// its first termination token or the queue's disconnection, then reports
/// its end of thread. `max_batches` bounds the slot tokens accepted, as in
/// the single-stream worker.
pub fn run_paired_worker_thread<P: PairedParallelProcessor>(
    pool: &PairedSlotPool,
    rx: &mut TokenReceiver,
    processor: P,
    thread_id: usize,
    max_batches: usize,
) -> (out: (P, Result<(), PipelineError>))
    ensures
        out.0.thread_id_view() == Some(thread_id),
        out.1 is Ok ==> exists|ds: Seq<(Seq<RecordData>, Seq<RecordData>)>|
            #![auto]
            out.0.history() == processor.history() + paired_session_events(ds).push(
                ProcEvent::ThreadDone,
            ) && ds.len() == final(rx).taken@.len() - old(rx).taken@.len() - none_count(
                final(rx).taken@.skip(old(rx).taken@.len() as int),
            ),
        out.1 is Ok ==> forall|i: int|
            old(rx).taken@.len() <= i < final(rx).taken@.len() && (
            #[trigger] final(rx).taken@[i]) is Some ==> final(rx).taken@[i]->0
                < paired_slot_count(*pool),
        out.1 matches Err(e) ==> e is Process,
        out.1 is Err ==> exists|
            ds: Seq<(Seq<RecordData>, Seq<RecordData>)>,
            b1: Seq<RecordData>,
            b2: Seq<RecordData>,
            k: int,
        |
            #![auto]
            0 <= k <= pair_events(b1, b2).len() && out.0.history() == processor.history()
                + paired_session_events(ds) + pair_events(b1, b2).take(k),
        final(rx).taken@.len() >= old(rx).taken@.len(),
        final(rx).taken@.take(old(rx).taken@.len() as int) == old(rx).taken@,
        none_count(final(rx).taken@.skip(old(rx).taken@.len() as int)) <= 1,
        forall|i: int|
            old(rx).taken@.len() <= i < final(rx).taken@.len() - 1 ==> (
            #[trigger] final(rx).taken@[i]) is Some,
{
    let ghost taken0 = rx.taken@;
    let mut p = processor;
    p.set_thread_id(thread_id);
    let ghost base = p.history();
    let ghost mut drained: Seq<(Seq<RecordData>, Seq<RecordData>)> = Seq::empty();
    let pool_len = num_paired_slots(pool);
    let mut budget = max_batches;
    loop
        invariant_except_break
            forall|i: int|
                taken0.len() <= i < rx.taken@.len() ==> (#[trigger] rx.taken@[i]) is Some
                    && rx.taken@[i]->0 < pool_len,
            drained.len() == rx.taken@.len() - taken0.len(),
        invariant
            paired_slot_count(*pool) == pool_len,
            p.thread_id_view() == Some(thread_id),
            base == processor.history(),
            p.history() == base + paired_session_events(drained),
            taken0 == old(rx).taken@,
            rx.taken@.len() >= taken0.len(),
            rx.taken@.take(taken0.len() as int) == taken0,
        ensures
            p.thread_id_view() == Some(thread_id),
            p.history() == base + paired_session_events(drained),
            rx.taken@.len() >= taken0.len(),
            rx.taken@.take(taken0.len() as int) == taken0,
            none_count(rx.taken@.skip(taken0.len() as int)) <= 1,
            drained.len() == rx.taken@.len() - taken0.len() - none_count(
                rx.taken@.skip(taken0.len() as int),
            ),
            forall|i: int|
                taken0.len() <= i < rx.taken@.len() - 1 ==> (#[trigger] rx.taken@[i]) is Some,
            forall|i: int|
                taken0.len() <= i < rx.taken@.len() && (#[trigger] rx.taken@[i]) is Some ==> rx
                    .taken@[i]->0 < pool_len,
        decreases budget,
    {
        if budget == 0 {
            proof {
                lemma_none_count_all_some(rx.taken@, taken0);
                assert(base + paired_session_events(drained) + pair_events(
                    Seq::<RecordData>::empty(),
                    Seq::<RecordData>::empty(),
                ).take(0) =~= base + paired_session_events(drained));
            }
            return (
                p,
                Err(PipelineError::Process(String::from_str("the worker's batch budget is spent"))),
            );
        }
        budget = budget - 1;
        let ghost pre_taken = rx.taken@;
        match rx.recv_token() {
            None => {
                proof {
                    lemma_none_count_all_some(rx.taken@, taken0);
                }
                break ;
            },
            Some(None) => {
                proof {
                    assert(rx.taken@.drop_last() =~= pre_taken);
                    lemma_take_push(rx.taken@, taken0);
                    lemma_none_count_last_none(rx.taken@, taken0);
                }
                break ;
            },
            Some(Some(idx)) => {
                proof {
                    assert(rx.taken@.drop_last() =~= pre_taken);
                    lemma_take_push(rx.taken@, taken0);
                }
                if idx >= pool_len {
                    proof {
                        lemma_none_count_all_some(rx.taken@, taken0);
                        assert(base + paired_session_events(drained) + pair_events(
                            Seq::<RecordData>::empty(),
                            Seq::<RecordData>::empty(),
                        ).take(0) =~= base + paired_session_events(drained));
                    }
                    return (
                        p,
                        Err(
                            PipelineError::Process(
                                String::from_str("a published slot index is out of range"),
                            ),
                        ),
                    );
                }
                let batches = take_paired_slot(pool, idx);
                let r = drain_paired_batch(&batches.0, &batches.1, &mut p);
                store_paired_slot(pool, idx, batches.0, batches.1);
                match r {
                    Ok(()) => {
                        proof {
                            let pair = (view_of_batch(batches.0@), view_of_batch(batches.1@));
                            assert(drained.push(pair).drop_last() =~= drained);
                            assert(base + (paired_session_events(drained)
                                + crate::schedule::paired_batch_events(pair.0, pair.1)) =~= (base
                                + paired_session_events(drained))
                                + crate::schedule::paired_batch_events(pair.0, pair.1));
                            drained = drained.push(pair);
                        }
                    },
                    Err(e) => {
                        proof {
                            lemma_none_count_all_some(rx.taken@, taken0);
                        }
                        return (p, Err(e));
                    },
                }
            },
        }
    }
    match p.on_thread_complete() {
        Ok(()) => {
            proof {
                assert(base + paired_session_events(drained).push(ProcEvent::ThreadDone) =~= (base
                    + paired_session_events(drained)).push(ProcEvent::ThreadDone));
            }
            (p, Ok(()))
        },
        Err(e) => {
            proof {
                assert(base + paired_session_events(drained) + pair_events(
                    Seq::<RecordData>::empty(),
                    Seq::<RecordData>::empty(),
                ).take(0) =~= base + paired_session_events(drained));
            }
            (p, Err(e))
        },
    }
}

} // verus!
