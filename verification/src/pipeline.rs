//! The reader-thread and worker-thread protocols of the concurrent
//! pipeline, verified over the trusted hand-off queue and slot pool: the
//! reader fills slots in round-robin order and publishes their indices,
//! then one termination token per worker; each worker drains whatever batch
//! a published slot hands back, stops at its first termination token, and
//! reports its end of thread. A host spawns one thread per loop and joins
//! them; `first_failure` then picks the error the pipeline reports.

use vstd::prelude::*;
use vstd::string::StringExecFns;

use crate::engine::{lemma_rr_advance, ParallelReader, ReadOutcome};
use crate::errors::PipelineError;
use crate::handoff::{TokenReceiver, TokenSender};
use crate::processor::{ParallelProcessor, ProcEvent};
use crate::records::{OwnedRecord, RecordData};
use crate::schedule::{rec_events, session_events, view_of_batch};
use crate::slots::{num_slots, slot_count, store_slot, take_slot, SlotPool};
use crate::worker::drain_batch;

verus! {

/// The slot-index tokens the reader publishes for `n` batches over a pool
/// of `size` slots: batch `k` is announced as slot `k % size`.
pub open spec fn data_tokens(n: int, size: int) -> Seq<Option<usize>> {
    Seq::new(n as nat, |k: int| Some((k % size) as usize))
}

/// The termination tokens the reader appends once the input is exhausted:
/// exactly one per worker.
pub open spec fn termination_tokens(t: int) -> Seq<Option<usize>> {
    Seq::new(t as nat, |k: int| None)
}

/// Everything the reader publishes for a source of `n` batches read by `t`
/// workers over a pool of `2 * t` slots: one data token per batch, then one
/// termination token per worker — on clean end-of-input and on a hard
/// source error alike, so no worker is left waiting on a failed run.
pub open spec fn reader_tokens(n: int, t: int) -> Seq<Option<usize>> {
    data_tokens(n, 2 * t) + termination_tokens(t)
}

/// How many termination tokens a token sequence holds.
pub open spec fn none_count(s: Seq<Option<usize>>) -> int
    decreases s.len(),
{
    if s.len() == 0 {
        0
    } else {
        none_count(s.drop_last()) + if s.last() is None {
            1int
        } else {
            0int
        }
    }
}

/// The reader-thread protocol: fills the pool's slots in strict round-robin
/// order, one batch per cycle, publishing each filled slot's index; on loop
/// exit — clean end-of-input or a hard source error — it publishes one
/// termination token per worker, then returns the stored error if any.
pub fn run_reader_thread<R: ParallelReader>(
    reader: R,
    pool: &SlotPool,
    tx: &mut TokenSender,
    num_threads: usize,
) -> (r: Result<(), PipelineError>)
    requires
        1 <= num_threads,
        num_threads <= usize::MAX / 2,
        slot_count(*pool) == 2 * num_threads,
    ensures
        r is Ok ==> !reader.source_fails() && final(tx).sent@ == old(tx).sent@ + reader_tokens(
            reader.batches().len() as int,
            num_threads as int,
        ),
        r matches Err(e) ==> e is Source || e is Disconnected,
        r matches Err(e) && e is Source ==> reader.source_fails() && final(tx).sent@ == old(
            tx,
        ).sent@ + reader_tokens(reader.batches().len() as int, num_threads as int),
        r matches Err(e) && e is Disconnected ==> exists|m: int|
            0 <= m <= reader_tokens(reader.batches().len() as int, num_threads as int).len()
                && final(tx).sent@ == old(tx).sent@ + reader_tokens(
                reader.batches().len() as int,
                num_threads as int,
            ).take(m),
{
    let ghost bs = reader.batches();
    let ghost fails = reader.source_fails();
    let ghost t = num_threads as int;
    let ghost size = 2 * t;
    let ghost sent0 = tx.sent@;
    let mut source = reader;
    let pool_len = num_slots(pool);
    let mut idx: usize = 0;
    let ghost mut j: int = 0;
    let mut stored: Option<PipelineError> = None;
    loop
        invariant_except_break
            stored is None,
            j + source.batches().len() == bs.len(),
            source.batches() == bs.skip(j),
            source.source_fails() == fails,
        invariant
            1 <= num_threads,
            num_threads <= usize::MAX / 2,
            t == num_threads as int,
            size == 2 * t,
            pool_len == 2 * num_threads,
            slot_count(*pool) == 2 * num_threads,
            bs == reader.batches(),
            fails == reader.source_fails(),
            sent0 == old(tx).sent@,
            0 <= j,
            idx < pool_len,
            idx as int == j % size,
            tx.sent@ == sent0 + data_tokens(j, size),
        ensures
            j == bs.len(),
            tx.sent@ == sent0 + data_tokens(j, size),
            stored is None ==> !fails,
            stored matches Some(e) ==> fails && e is Source,
        decreases source.batches().len(),
    {
        let mut batch = take_slot(pool, idx);
        match source.fill_next(&mut batch) {
            ReadOutcome::Filled => {
                proof {
                    assert(bs.skip(j).drop_first() =~= bs.skip(j + 1));
                }
                store_slot(pool, idx, batch);
                let ok = tx.send_token(Some(idx));
                if !ok {
                    proof {
                        assert(data_tokens(j, size) =~= reader_tokens(bs.len() as int, t).take(j));
                    }
                    return Err(PipelineError::Disconnected);
                }
                proof {
                    assert(data_tokens(j + 1, size) =~= data_tokens(j, size).push(
                        Some((j % size) as usize),
                    ));
                    lemma_rr_advance(j, size);
                    j = j + 1;
                }
                idx = if idx + 1 == pool_len {
                    0
                } else {
                    idx + 1
                };
            },
            ReadOutcome::Finished => {
                break ;
            },
            ReadOutcome::Failed(e) => {
                proof {
                    assert(j == bs.len());
                }
                stored = Some(e);
                break ;
            },
        }
    }

    let ghost n = bs.len() as int;
    let mut k: usize = 0;
    while k < num_threads
        invariant
            1 <= num_threads,
            t == num_threads as int,
            size == 2 * t,
            n == reader.batches().len() as int,
            stored is None ==> !reader.source_fails(),
            stored matches Some(e) ==> reader.source_fails() && e is Source,
            sent0 == old(tx).sent@,
            k <= num_threads,
            tx.sent@ == sent0 + data_tokens(n, size) + termination_tokens(k as int),
        decreases num_threads - k,
    {
        let ok = tx.send_token(None);
        if !ok {
            proof {
                assert((data_tokens(n, size) + termination_tokens(k as int)) =~= reader_tokens(
                    n,
                    t,
                ).take(n + k));
                assert(tx.sent@ =~= sent0 + (data_tokens(n, size) + termination_tokens(k as int)));
                assert(tx.sent@ == old(tx).sent@ + reader_tokens(n, t).take(n + k));
            }
            return Err(PipelineError::Disconnected);
        }
        proof {
            assert((sent0 + data_tokens(n, size) + termination_tokens(k as int)).push(
                None::<usize>,
            ) =~= sent0 + data_tokens(n, size) + termination_tokens(k as int + 1));
        }
        k += 1;
    }
    proof {
        assert(tx.sent@ =~= sent0 + reader_tokens(n, t));
    }
    match stored {
        Some(e) => Err(e),
        None => Ok(()),
    }
}

/// The worker-thread protocol: gives its processor instance the worker's
/// thread id, then drains every slot whose index arrives until the first
/// termination token (or the queue's disconnection, the safety net when
/// the reader thread died before it could flush its tokens), and finally
/// reports its end of thread. The histories speak of whatever batches the
/// slots handed back; a worker consumes at most one termination token,
/// only ever as its final token, and on a clean run drained exactly one
/// batch per slot token it consumed. `max_batches` bounds how many slot
/// tokens the worker will accept before it gives up with a processing
/// error; a host passes the largest value, which no reader can exhaust.
pub fn run_worker_thread<P: ParallelProcessor>(
    pool: &SlotPool,
    rx: &mut TokenReceiver,
    processor: P,
    thread_id: usize,
    max_batches: usize,
) -> (out: (P, Result<(), PipelineError>))
    ensures
        out.0.thread_id_view() == Some(thread_id),
        out.1 is Ok ==> exists|ds: Seq<Seq<RecordData>>|
            #![auto]
            out.0.history() == processor.history() + session_events(ds).push(ProcEvent::ThreadDone)
                && ds.len() == final(rx).taken@.len() - old(rx).taken@.len() - none_count(
                final(rx).taken@.skip(old(rx).taken@.len() as int),
            ),
        out.1 is Ok ==> forall|i: int|
            old(rx).taken@.len() <= i < final(rx).taken@.len() && (
            #[trigger] final(rx).taken@[i]) is Some ==> final(rx).taken@[i]->0 < slot_count(*pool),
        out.1 matches Err(e) ==> e is Process,
        out.1 is Err ==> exists|ds: Seq<Seq<RecordData>>, part: Seq<RecordData>, k: int|
            #![auto]
            0 <= k <= part.len() && out.0.history() == processor.history() + session_events(ds)
                + rec_events(part.take(k)),
        final(rx).taken@.len() >= old(rx).taken@.len(),
        final(rx).taken@.take(old(rx).taken@.len() as int) == old(rx).taken@,
        none_count(final(rx).taken@.skip(old(rx).taken@.len() as int)) <= 1,
        forall|i: int|
            old(rx).taken@.len() <= i < final(rx).taken@.len() - 1 ==> (
            #[trigger] final(rx).taken@[i]) is Some,
{
    let ghost taken0 = rx.taken@;
    let mut p = processor;
    p.set_thread_id(thread_id);
    let ghost base = p.history();
    let ghost mut drained: Seq<Seq<RecordData>> = Seq::empty();
    let pool_len = num_slots(pool);
    let mut budget = max_batches;
    loop
        invariant_except_break
            forall|i: int|
                taken0.len() <= i < rx.taken@.len() ==> (#[trigger] rx.taken@[i]) is Some
                    && rx.taken@[i]->0 < pool_len,
            drained.len() == rx.taken@.len() - taken0.len(),
        invariant
            slot_count(*pool) == pool_len,
            p.thread_id_view() == Some(thread_id),
            base == processor.history(),
            p.history() == base + session_events(drained),
            taken0 == old(rx).taken@,
            rx.taken@.len() >= taken0.len(),
            rx.taken@.take(taken0.len() as int) == taken0,
        ensures
            p.thread_id_view() == Some(thread_id),
            p.history() == base + session_events(drained),
            rx.taken@.len() >= taken0.len(),
            rx.taken@.take(taken0.len() as int) == taken0,
            none_count(rx.taken@.skip(taken0.len() as int)) <= 1,
            drained.len() == rx.taken@.len() - taken0.len() - none_count(
                rx.taken@.skip(taken0.len() as int),
            ),
            forall|i: int|
                taken0.len() <= i < rx.taken@.len() - 1 ==> (#[trigger] rx.taken@[i]) is Some,
            forall|i: int|
                taken0.len() <= i < rx.taken@.len() && (#[trigger] rx.taken@[i]) is Some ==> rx
                    .taken@[i]->0 < pool_len,
        decreases budget,
    {
        if budget == 0 {
            proof {
                lemma_none_count_all_some(rx.taken@, taken0);
                assert(base + session_events(drained) + rec_events(
                    Seq::<RecordData>::empty().take(0),
                ) =~= base + session_events(drained));
            }
            return (
                p,
                Err(PipelineError::Process(String::from_str("the worker's batch budget is spent"))),
            );
        }
        budget = budget - 1;
        let ghost pre_taken = rx.taken@;
        match rx.recv_token() {
            None => {
                proof {
                    lemma_none_count_all_some(rx.taken@, taken0);
                }
                break ;
            },
            Some(None) => {
                proof {
                    assert(rx.taken@.drop_last() =~= pre_taken);
                    lemma_take_push(rx.taken@, taken0);
                    lemma_none_count_last_none(rx.taken@, taken0);
                }
                break ;
            },
            Some(Some(idx)) => {
                proof {
                    assert(rx.taken@.drop_last() =~= pre_taken);
                    lemma_take_push(rx.taken@, taken0);
                }
                if idx >= pool_len {
                    proof {
                        lemma_none_count_all_some(rx.taken@, taken0);
                        assert(base + session_events(drained) + rec_events(
                            Seq::<RecordData>::empty().take(0),
                        ) =~= base + session_events(drained));
                    }
                    return (
                        p,
                        Err(
                            PipelineError::Process(
                                String::from_str("a published slot index is out of range"),
                            ),
                        ),
                    );
                }
                let batch = take_slot(pool, idx);
                let r = drain_batch(&batch, &mut p);
                store_slot(pool, idx, batch);
                match r {
                    Ok(()) => {
                        proof {
                            lemma_session_push(drained, view_of_batch(batch@), base);
                            drained = drained.push(view_of_batch(batch@));
                        }
                    },
                    Err(e) => {
                        proof {
                            lemma_none_count_all_some(rx.taken@, taken0);
                        }
                        return (p, Err(e));
                    },
                }
            },
        }
    }
    match p.on_thread_complete() {
        Ok(()) => {
            proof {
                assert(base + session_events(drained).push(ProcEvent::ThreadDone) =~= (base
                    + session_events(drained)).push(ProcEvent::ThreadDone));
            }
            (p, Ok(()))
        },
        Err(e) => {
            proof {
                assert(base + session_events(drained) + rec_events(
                    Seq::<RecordData>::empty().take(0),
                ) =~= base + session_events(drained));
            }
            (p, Err(e))
        },
    }
}

pub(crate) proof fn lemma_none_count_add(a: Seq<Option<usize>>, b: Seq<Option<usize>>)
    ensures
        none_count(a + b) == none_count(a) + none_count(b),
    decreases b.len(),
{
    if b.len() == 0 {
        assert(a + b =~= a);
    } else {
        lemma_none_count_add(a, b.drop_last());
        assert((a + b).drop_last() =~= a + b.drop_last());
    }
}

pub(crate) proof fn lemma_none_count_all_some(s: Seq<Option<usize>>, prefix: Seq<Option<usize>>)
    requires
        s.len() >= prefix.len(),
        s.take(prefix.len() as int) == prefix,
        forall|i: int| prefix.len() <= i < s.len() ==> (#[trigger] s[i]) is Some,
    ensures
        none_count(s) == none_count(prefix) + none_count(s.skip(prefix.len() as int)),
        none_count(s.skip(prefix.len() as int)) == 0,
{
    let rest = s.skip(prefix.len() as int);
    assert(s =~= prefix + rest);
    lemma_none_count_add(prefix, rest);
    lemma_none_count_none_free(rest);
}

pub(crate) proof fn lemma_none_count_none_free(s: Seq<Option<usize>>)
    requires
        forall|i: int| 0 <= i < s.len() ==> (#[trigger] s[i]) is Some,
    ensures
        none_count(s) == 0,
    decreases s.len(),
{
    if s.len() > 0 {
        lemma_none_count_none_free(s.drop_last());
    }
}

pub(crate) proof fn lemma_none_count_last_none(s: Seq<Option<usize>>, prefix: Seq<Option<usize>>)
    requires
        s.len() > prefix.len(),
        s.take(prefix.len() as int) == prefix,
        forall|i: int| prefix.len() <= i < s.len() - 1 ==> (#[trigger] s[i]) is Some,
        s.last() is None,
    ensures
        none_count(s) == none_count(prefix) + none_count(s.skip(prefix.len() as int)),
        none_count(s.skip(prefix.len() as int)) == 1,
{
    let rest = s.skip(prefix.len() as int);
    assert(s =~= prefix + rest);
    lemma_none_count_add(prefix, rest);
    assert(rest.last() == s.last());
    lemma_none_count_none_free(rest.drop_last());
}

pub(crate) proof fn lemma_take_push(s: Seq<Option<usize>>, prefix: Seq<Option<usize>>)
    requires
        s.len() > prefix.len(),
        s.drop_last().take(prefix.len() as int) == prefix,
    ensures
        s.take(prefix.len() as int) == prefix,
{
    assert(s.take(prefix.len() as int) =~= s.drop_last().take(prefix.len() as int));
}

proof fn lemma_session_push(ds: Seq<Seq<RecordData>>, b: Seq<RecordData>, base: Seq<ProcEvent>)
    ensures
        base + session_events(ds.push(b)) == (base + session_events(ds)) + crate::schedule::batch_events(b),
{
    assert(ds.push(b).drop_last() =~= ds);
    assert(base + (session_events(ds) + crate::schedule::batch_events(b)) =~= (base
        + session_events(ds)) + crate::schedule::batch_events(b));
}

/// Exactly one termination token is published for each of the `t` workers,
/// whatever the batch count and however the input ended: the published
/// tokens hold `t` termination tokens, all after the data tokens.
pub proof fn lemma_termination_token_count(n: int, t: int)
    requires
        n >= 0,
        t >= 0,
    ensures
        none_count(reader_tokens(n, t)) == t,
        none_count(data_tokens(n, 2 * t)) == 0,
{
    lemma_data_tokens_none_free(n, 2 * t);
    lemma_none_count_add(data_tokens(n, 2 * t), termination_tokens(t));
    lemma_termination_tokens_all_none(t);
}

proof fn lemma_termination_tokens_all_none(t: int)
    requires
        t >= 0,
    ensures
        none_count(termination_tokens(t)) == t,
    decreases t,
{
    if t > 0 {
        lemma_termination_tokens_all_none(t - 1);
        assert(termination_tokens(t).drop_last() =~= termination_tokens(t - 1));
    }
}

proof fn lemma_data_tokens_none_free(n: int, size: int)
    requires
        n >= 0,
    ensures
        none_count(data_tokens(n, size)) == 0,
    decreases n,
{
    if n > 0 {
        lemma_data_tokens_none_free(n - 1, size);
        assert(data_tokens(n, size).drop_last() =~= data_tokens(n - 1, size));
    }
}

} // verus!
