//! The single-stream pipeline: the record-source interface the engine needs,
//! and the engine itself, which dispatches batches to a fixed set of worker
//! instances in strict round-robin order and combines their failures.

use vstd::arithmetic::div_mod::{
    lemma_add_mod_noop, lemma_mod_bound, lemma_mod_self_0, lemma_small_mod,
};
use vstd::prelude::*;

use crate::errors::PipelineError;
use crate::processor::{ParallelProcessor, ProcEvent};
use crate::records::{OwnedRecord, RecordData};
use crate::schedule::{batch_events, rec_events, session_events, view_of_batch, worker_batches};
use crate::worker::drain_batch;

verus! {

/// The tri-state answer of a record source asked to fill a batch: more data
/// was filled in, the input ended cleanly, or a hard parse error occurred.
pub enum ReadOutcome {
    Filled,
    Finished,
    Failed(PipelineError),
}

/// A sequential record source the engine can drain: each call to
/// `fill_next` either fills the batch with the next group of consecutive
/// records, reports clean end-of-input, or reports a hard source error
/// (which, by `source_fails`, can only follow the last good batch).
pub trait ParallelReader: Sized {
    /// The batches the source still has to deliver, in input order.
    spec fn batches(&self) -> Seq<Seq<RecordData>>;

    /// Whether the source ends in a hard error after its good batches,
    /// rather than in clean end-of-input.
    spec fn source_fails(&self) -> bool;

    /// Fills `batch` with the next group of records, overwriting its former
    /// contents.
    fn fill_next(&mut self, batch: &mut Vec<OwnedRecord>) -> (o: ReadOutcome)
        ensures
            o is Filled ==> old(self).batches().len() > 0
                && view_of_batch(final(batch)@) == old(self).batches()[0]
                && final(self).batches() == old(self).batches().drop_first()
                && final(self).source_fails() == old(self).source_fails(),
            o is Finished ==> old(self).batches().len() == 0 && !old(self).source_fails(),
            o matches ReadOutcome::Failed(e) ==> old(self).batches().len() == 0 && old(self).source_fails()
                && e is Source,
            old(self).batches().len() > 0 ==> o is Filled,
            old(self).batches().len() == 0 && !old(self).source_fails() ==> o is Finished,
            old(self).batches().len() == 0 && old(self).source_fails() ==> o is Failed,
    ;
}

/// Worker `w` drained every batch assigned to it and then observed
/// termination; its end-of-thread callback either recorded its event or
/// refused and left the history as it stood.
pub open spec fn finished_history(h: Seq<ProcEvent>, assigned: Seq<Seq<RecordData>>) -> bool {
    h == session_events(assigned).push(ProcEvent::ThreadDone) || h == session_events(assigned)
}

/// The engine aborted while worker `j % t` was draining batch `j`: that
/// worker holds its full assignment out of the first `j` batches plus a
/// prefix of batch `j`'s records, and every other worker finished its
/// assignment out of those `j` batches.
pub open spec fn drain_abort<P: ParallelProcessor>(
    bs: Seq<Seq<RecordData>>,
    t: int,
    j: int,
    ws: Seq<P>,
) -> bool {
    &&& 0 <= j < bs.len()
    &&& exists|k: int|
        0 <= k <= bs[j].len() && (#[trigger] ws[j % t].history()) == session_events(
            worker_batches(bs.take(j), j % t, t),
        ) + rec_events(bs[j].take(k))
    &&& forall|w: int|
        0 <= w < t && w != j % t ==> finished_history(
            (#[trigger] ws[w]).history(),
            worker_batches(bs.take(j), w, t),
        )
}

/// What a finished pipeline run guarantees, given the source's batches
/// `bs`, whether the source ends in a hard error, the worker count `t`, and
/// the number `j` of batches the run dispatched before it stopped: which
/// callbacks every worker instance observed, and how the reported result
/// relates to them. On a processing error during a drain, `j` is the first
/// failing dispatch index; on an end-of-thread failure the reported error
/// belongs to the lowest failed thread id.
pub open spec fn pipeline_outcome<P: ParallelProcessor>(
    bs: Seq<Seq<RecordData>>,
    fails: bool,
    t: int,
    r: Result<(), PipelineError>,
    ws: Seq<P>,
    j: int,
) -> bool {
    &&& ws.len() == t
    &&& 0 <= j <= bs.len()
    &&& (forall|w: int|
        0 <= w < t ==> (#[trigger] ws[w]).thread_id_view() == Some(w as usize))
    &&& match r {
        Ok(()) => {
            &&& !fails
            &&& j == bs.len()
            &&& forall|w: int|
                0 <= w < t ==> (#[trigger] ws[w]).history() == session_events(
                    worker_batches(bs, w, t),
                ).push(ProcEvent::ThreadDone)
        },
        Err(e) => {
            ||| (e is Source && fails && j == bs.len() && forall|w: int|
                0 <= w < t ==> finished_history(
                    (#[trigger] ws[w]).history(),
                    worker_batches(bs, w, t),
                ))
            ||| (e is Process && drain_abort(bs, t, j, ws))
            ||| (e is Process && !fails && j == bs.len() && exists|w: int|
                #![auto]
                0 <= w < t && ws[w].history() == session_events(worker_batches(bs, w, t)) && (
                forall|u: int|
                    0 <= u < w ==> (#[trigger] ws[u]).history() == session_events(
                        worker_batches(bs, u, t),
                    ).push(ProcEvent::ThreadDone)) && (forall|u: int|
                    w < u < t ==> finished_history(
                        (#[trigger] ws[u]).history(),
                        worker_batches(bs, u, t),
                    )))
        },
    }
}

/// No two workers of one run carry the same thread id: every pipeline run
/// gives worker `w` the id `w`, and the ids `0 .. t` are pairwise distinct.
pub proof fn lemma_thread_ids_distinct<P: ParallelProcessor>(ws: Seq<P>, t: int)
    requires
        0 <= t <= usize::MAX,
        forall|w: int|
            0 <= w < t ==> (#[trigger] ws[w]).thread_id_view() == Some(w as usize),
    ensures
        forall|a: int, b: int|
            0 <= a < t && 0 <= b < t && a != b ==> (#[trigger] ws[a]).thread_id_view() != (
            #[trigger] ws[b]).thread_id_view(),
{
}

pub(crate) proof fn lemma_rr_advance(j: int, t: int)
    requires
        t >= 1,
        j >= 0,
    ensures
        0 <= j % t < t,
        (j + 1) % t == if j % t + 1 == t {
            0int
        } else {
            j % t + 1
        },
{
    lemma_mod_bound(j, t);
    lemma_add_mod_noop(j, 1, t);
    if t == 1 {
        lemma_mod_self_0(t);
        lemma_small_mod(0nat, 1nat);
    } else {
        lemma_small_mod(1nat, t as nat);
        if j % t + 1 == t {
            lemma_mod_self_0(t);
        } else {
            lemma_small_mod((j % t + 1) as nat, t as nat);
        }
    }
}

/// Dispatching one more batch extends exactly the round-robin target's
/// assignment.
proof fn lemma_dispatch_step(bs: Seq<Seq<RecordData>>, j: int, v: int, t: int)
    requires
        t >= 1,
        0 <= j < bs.len(),
        0 <= v < t,
    ensures
        worker_batches(bs.take(j + 1), v, t) == if v == j % t {
            worker_batches(bs.take(j), v, t).push(bs[j])
        } else {
            worker_batches(bs.take(j), v, t)
        },
{
    let s = bs.take(j + 1);
    assert(s.len() == j + 1);
    assert(s.drop_last() =~= bs.take(j));
    assert(s.last() == bs[j]);
}

/// A worker's session over one more assigned batch appends exactly that
/// batch's events.
proof fn lemma_session_step(assigned: Seq<Seq<RecordData>>, b: Seq<RecordData>)
    ensures
        session_events(assigned.push(b)) == session_events(assigned) + batch_events(b),
{
    assert(assigned.push(b).drop_last() =~= assigned);
    assert(assigned.push(b).last() == b);
}

/// Runs the whole pipeline sequentially with `num_threads` worker
/// instances: a fresh instance per worker, each given its thread id; strict
/// round-robin dispatch of batches to workers (batch `k` to worker
/// `k % num_threads`); every record of a batch in parse order, then the
/// batch-complete callback; at the first fatal condition dispatch stops;
/// every worker that did not itself fail then observes its end-of-thread
/// callback. The first fatal condition in dispatch order is the one
/// reported. The worker instances are returned for inspection.
pub fn run_pipeline<R: ParallelReader, P: ParallelProcessor>(
    reader: R,
    processor: &P,
    num_threads: usize,
) -> (out: (Result<(), PipelineError>, Vec<P>, Ghost<int>))
    requires
        1 <= num_threads,
    ensures
        pipeline_outcome(
            reader.batches(),
            reader.source_fails(),
            num_threads as int,
            out.0,
            out.1@,
            out.2@,
        ),
{
    let ghost bs = reader.batches();
    let ghost fails = reader.source_fails();
    let ghost t = num_threads as int;
    let mut source = reader;

    let mut workers: Vec<P> = Vec::new();
    let mut i: usize = 0;
    while i < num_threads
        invariant
            i <= num_threads,
            workers@.len() == i,
            forall|w: int|
                0 <= w < i ==> (#[trigger] workers@[w]).history() == Seq::<ProcEvent>::empty()
                    && workers@[w].thread_id_view() == Some(w as usize),
        decreases num_threads - i,
    {
        let mut p = processor.clone_for_worker();
        p.set_thread_id(i);
        workers.push(p);
        i += 1;
    }

    let mut batch: Vec<OwnedRecord> = Vec::new();
    let mut w: usize = 0;
    let ghost mut j: int = 0;
    let mut verdict: Result<(), PipelineError> = Ok(());
    let mut failed: Option<usize> = None;
    loop
        invariant_except_break
            verdict is Ok,
            failed is None,
            j + source.batches().len() == bs.len(),
            source.batches() == bs.skip(j),
            source.source_fails() == fails,
            forall|v: int|
                0 <= v < t ==> (#[trigger] workers@[v]).history() == session_events(
                    worker_batches(bs.take(j), v, t),
                ),
        invariant
            1 <= num_threads,
            t == num_threads as int,
            bs == reader.batches(),
            fails == reader.source_fails(),
            workers@.len() == num_threads,
            0 <= j,
            w < num_threads,
            w as int == j % t,
            forall|v: int|
                0 <= v < t ==> (#[trigger] workers@[v]).thread_id_view() == Some(v as usize),
        ensures
            workers@.len() == num_threads,
            0 <= j <= bs.len(),
            forall|v: int|
                0 <= v < t ==> (#[trigger] workers@[v]).thread_id_view() == Some(v as usize),
            verdict is Ok ==> j == bs.len() && !fails && failed is None,
            verdict matches Err(e) ==> (failed is None && e is Source && fails && j == bs.len()) || (
            failed matches Some(f) && f < num_threads && f as int == j % t && e is Process && 0 <= j
                < bs.len()),
            failed matches Some(f) ==> exists|k: int|
                0 <= k <= bs[j].len() && (#[trigger] workers@[f as int].history())
                    == session_events(worker_batches(bs.take(j), f as int, t)) + rec_events(
                    bs[j].take(k),
                ),
            forall|v: int|
                0 <= v < t && (failed is None || v != failed->0) ==> (
                #[trigger] workers@[v]).history() == session_events(worker_batches(bs.take(j), v, t)),
        decreases source.batches().len(),
    {
        match source.fill_next(&mut batch) {
            ReadOutcome::Filled => {
                proof {
                    assert(bs.skip(j)[0] == bs[j]);
                    assert(bs.skip(j).drop_first() =~= bs.skip(j + 1));
                }
                let mut p = workers.remove(w);
                let ghost pre = workers@;
                let r = drain_batch(&batch, &mut p);
                workers.insert(w, p);
                proof {
                    assert(workers@ =~= pre.insert(w as int, p));
                }
                match r {
                    Ok(()) => {
                        proof {
                            lemma_dispatch_step(bs, j, w as int, t);
                            lemma_session_step(worker_batches(bs.take(j), w as int, t), bs[j]);
                            assert forall|v: int| 0 <= v < t && v != w as int implies worker_batches(
                                bs.take(j + 1),
                                v,
                                t,
                            ) == worker_batches(bs.take(j), v, t) by {
                                lemma_dispatch_step(bs, j, v, t);
                            }
                            lemma_rr_advance(j, t);
                            j = j + 1;
                        }
                        w = if w + 1 == num_threads {
                            0
                        } else {
                            w + 1
                        };
                    },
                    Err(e) => {
                        verdict = Err(e);
                        failed = Some(w);
                        break ;
                    },
                }
            },
            ReadOutcome::Finished => {
                proof {
                    assert(j == bs.len());
                }
                break ;
            },
            ReadOutcome::Failed(e) => {
                proof {
                    assert(j == bs.len());
                }
                verdict = Err(e);
                break ;
            },
        }
    }

    proof {
        if j == bs.len() {
            assert(bs.take(j) =~= bs);
        }
    }
    let ghost assigned_upto = bs.take(j);

    let mut comp_err: Option<PipelineError> = None;
    let ghost mut comp_witness: int = 0;
    let mut v: usize = 0;
    while v < num_threads
        invariant
            1 <= num_threads,
            t == num_threads as int,
            bs == reader.batches(),
            fails == reader.source_fails(),
            0 <= j <= bs.len(),
            assigned_upto == bs.take(j),
            j == bs.len() ==> assigned_upto == bs,
            verdict is Ok ==> j == bs.len() && !fails && failed is None,
            verdict matches Err(e) ==> (failed is None && e is Source && fails && j == bs.len())
                || (failed matches Some(f) && f < num_threads && f as int == j % t && e is Process
                && 0 <= j < bs.len()),
            v <= num_threads,
            workers@.len() == num_threads,
            forall|u: int|
                0 <= u < t ==> (#[trigger] workers@[u]).thread_id_view() == Some(u as usize),
            failed matches Some(f) ==> exists|k: int|
                0 <= k <= bs[j].len() && (#[trigger] workers@[f as int].history())
                    == session_events(worker_batches(assigned_upto, f as int, t)) + rec_events(
                    bs[j].take(k),
                ),
            forall|u: int|
                0 <= u < t && v <= u && (failed is None || u != failed->0) ==> (
                #[trigger] workers@[u]).history() == session_events(
                    worker_batches(assigned_upto, u, t),
                ),
            forall|u: int|
                0 <= u < v && (failed is None || u != failed->0) ==> finished_history(
                    (#[trigger] workers@[u]).history(),
                    worker_batches(assigned_upto, u, t),
                ),
            comp_err is None ==> forall|u: int|
                0 <= u < v && (failed is None || u != failed->0) ==> (
                #[trigger] workers@[u]).history() == session_events(
                    worker_batches(assigned_upto, u, t),
                ).push(ProcEvent::ThreadDone),
            comp_err is Some ==> 0 <= comp_witness < v && (failed is None || comp_witness
                != failed->0) && workers@[comp_witness].history() == session_events(
                worker_batches(assigned_upto, comp_witness, t),
            ),
            comp_err is Some ==> forall|u: int|
                0 <= u < comp_witness && (failed is None || u != failed->0) ==> (
                #[trigger] workers@[u]).history() == session_events(
                    worker_batches(assigned_upto, u, t),
                ).push(ProcEvent::ThreadDone),
            comp_err matches Some(e) ==> e is Process,
        decreases num_threads - v,
    {
        let skip = match failed {
            Some(f) => f == v,
            None => false,
        };
        if !skip {
            let mut p = workers.remove(v);
            let ghost pre = workers@;
            let r = p.on_thread_complete();
            workers.insert(v, p);
            proof {
                assert(workers@ =~= pre.insert(v as int, p));
            }
            if comp_err.is_none() {
                if let Err(e) = r {
                    comp_err = Some(e);
                    proof {
                        comp_witness = v as int;
                    }
                }
            }
        }
        v += 1;
    }

    let ghost gverdict = verdict;
    let ghost gcomp = comp_err;
    let result: Result<(), PipelineError> = match verdict {
        Err(e) => Err(e),
        Ok(()) => match comp_err {
            Some(e) => Err(e),
            None => Ok(()),
        },
    };
    proof {
        let ws = workers@;
        if gverdict is Err {
            assert(result == gverdict);
            if failed is Some {
                assert(drain_abort(bs, t, j, ws));
            } else {
                assert(assigned_upto == bs);
            }
        } else if gcomp is Some {
            assert(assigned_upto == bs);
            assert(result == Err::<(), PipelineError>(gcomp->0));
            assert(ws[comp_witness].history() == session_events(worker_batches(bs, comp_witness, t)));
        } else {
            assert(assigned_upto == bs);
        }
    }
    (result, workers, Ghost(j))
}

} // verus!
