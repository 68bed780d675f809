//! The paired-stream pipeline: two sources advanced in lock-step, one
//! index-aligned pair of batches per slot, dispatched round-robin exactly as
//! in the single-stream engine. Running out of one stream before the other
//! is ordinary termination, not an error.

use vstd::prelude::*;

use crate::engine::{ParallelReader, ReadOutcome};
use crate::errors::PipelineError;
use crate::processor::{PairedParallelProcessor, ProcEvent};
use crate::records::{OwnedRecord, RecordData};
use crate::schedule::{
    pair_events, paired_batch_events, paired_session_events, view_of_batch, worker_batches,
};
use crate::worker::drain_paired_batch;

verus! {

/// The number of index-aligned batch pairs two streams deliver: pairs stop
/// at the shorter stream.
pub open spec fn paired_count(bs1: Seq<Seq<RecordData>>, bs2: Seq<Seq<RecordData>>) -> int {
    if bs1.len() <= bs2.len() {
        bs1.len() as int
    } else {
        bs2.len() as int
    }
}

/// The index-aligned batch pairs two streams deliver.
pub open spec fn zip_batches(bs1: Seq<Seq<RecordData>>, bs2: Seq<Seq<RecordData>>) -> Seq<
    (Seq<RecordData>, Seq<RecordData>),
> {
    Seq::new(paired_count(bs1, bs2) as nat, |i: int| (bs1[i], bs2[i]))
}

/// Whether lock-step reading of the two sources ends in a reported source
/// error rather than ordinary termination. The first stream to run out ends
/// the run: a hard error in its place is reported, but a hard error waiting
/// in the longer stream past that point is never reached, and when both
/// streams end together a hard error is reported only if neither ended
/// cleanly.
pub open spec fn paired_source_error(
    n1: int,
    fails1: bool,
    n2: int,
    fails2: bool,
) -> bool {
    if n1 < n2 {
        fails1
    } else if n2 < n1 {
        fails2
    } else {
        fails1 && fails2
    }
}

/// Worker `w` drained every pair assigned to it and then observed
/// termination; its end-of-thread callback either recorded its event or
/// refused.
pub open spec fn paired_finished_history(
    h: Seq<ProcEvent>,
    assigned: Seq<(Seq<RecordData>, Seq<RecordData>)>,
) -> bool {
    h == paired_session_events(assigned).push(ProcEvent::ThreadDone) || h
        == paired_session_events(assigned)
}

/// The engine aborted while worker `j % t` was draining pair `j`.
pub open spec fn paired_drain_abort<P: PairedParallelProcessor>(
    ps: Seq<(Seq<RecordData>, Seq<RecordData>)>,
    t: int,
    j: int,
    ws: Seq<P>,
) -> bool {
    &&& 0 <= j < ps.len()
    &&& exists|k: int|
        0 <= k <= pair_events(ps[j].0, ps[j].1).len() && (#[trigger] ws[j % t].history())
            == paired_session_events(worker_batches(ps.take(j), j % t, t)) + pair_events(
            ps[j].0,
            ps[j].1,
        ).take(k)
    &&& forall|w: int|
        0 <= w < t && w != j % t ==> paired_finished_history(
            (#[trigger] ws[w]).history(),
            worker_batches(ps.take(j), w, t),
        )
}

/// What a finished paired run guarantees, over the pairs `ps` the two
/// streams deliver together, whether lock-step reading ends in a source
/// error, and the number `j` of pairs the run dispatched before it stopped.
/// On a processing error during a drain, `j` is the first failing dispatch
/// index; on an end-of-thread failure the reported error belongs to the
/// lowest failed thread id.
pub open spec fn paired_pipeline_outcome<P: PairedParallelProcessor>(
    ps: Seq<(Seq<RecordData>, Seq<RecordData>)>,
    src_err: bool,
    t: int,
    r: Result<(), PipelineError>,
    ws: Seq<P>,
    j: int,
) -> bool {
    &&& ws.len() == t
    &&& 0 <= j <= ps.len()
    &&& (forall|w: int|
        0 <= w < t ==> (#[trigger] ws[w]).thread_id_view() == Some(w as usize))
    &&& match r {
        Ok(()) => {
            &&& !src_err
            &&& j == ps.len()
            &&& forall|w: int|
                0 <= w < t ==> (#[trigger] ws[w]).history() == paired_session_events(
                    worker_batches(ps, w, t),
                ).push(ProcEvent::ThreadDone)
        },
        Err(e) => {
            ||| (e is Source && src_err && j == ps.len() && forall|w: int|
                0 <= w < t ==> paired_finished_history(
                    (#[trigger] ws[w]).history(),
                    worker_batches(ps, w, t),
                ))
            ||| (e is Process && paired_drain_abort(ps, t, j, ws))
            ||| (e is Process && !src_err && j == ps.len() && exists|w: int|
                #![auto]
                0 <= w < t && ws[w].history() == paired_session_events(worker_batches(ps, w, t))
                    && (forall|u: int|
                    0 <= u < w ==> (#[trigger] ws[u]).history() == paired_session_events(
                        worker_batches(ps, u, t),
                    ).push(ProcEvent::ThreadDone)) && (forall|u: int|
                    w < u < t ==> paired_finished_history(
                        (#[trigger] ws[u]).history(),
                        worker_batches(ps, u, t),
                    )))
        },
    }
}

proof fn lemma_paired_dispatch_step(
    ps: Seq<(Seq<RecordData>, Seq<RecordData>)>,
    j: int,
    v: int,
    t: int,
)
    requires
        t >= 1,
        0 <= j < ps.len(),
        0 <= v < t,
    ensures
        worker_batches(ps.take(j + 1), v, t) == if v == j % t {
            worker_batches(ps.take(j), v, t).push(ps[j])
        } else {
            worker_batches(ps.take(j), v, t)
        },
{
    let s = ps.take(j + 1);
    assert(s.drop_last() =~= ps.take(j));
    assert(s.last() == ps[j]);
}

proof fn lemma_paired_session_step(
    assigned: Seq<(Seq<RecordData>, Seq<RecordData>)>,
    b: (Seq<RecordData>, Seq<RecordData>),
)
    ensures
        paired_session_events(assigned.push(b)) == paired_session_events(assigned)
            + paired_batch_events(b.0, b.1),
{
    assert(assigned.push(b).drop_last() =~= assigned);
    assert(assigned.push(b).last() == b);
}

/// Runs the paired pipeline sequentially with `num_threads` worker
/// instances, under the same schedule and error policy as the single-stream
/// engine: pair `k` goes to worker `k % num_threads`; dispatch stops at the
/// first fatal condition or when either stream runs out; every worker that
/// did not itself fail then observes its end-of-thread callback.
pub fn run_paired_pipeline<R: ParallelReader, P: PairedParallelProcessor>(
    reader1: R,
    reader2: R,
    processor: &P,
    num_threads: usize,
) -> (out: (Result<(), PipelineError>, Vec<P>, Ghost<int>))
    requires
        1 <= num_threads,
    ensures
        paired_pipeline_outcome(
            zip_batches(reader1.batches(), reader2.batches()),
            paired_source_error(
                reader1.batches().len() as int,
                reader1.source_fails(),
                reader2.batches().len() as int,
                reader2.source_fails(),
            ),
            num_threads as int,
            out.0,
            out.1@,
            out.2@,
        ),
{
    let ghost bs1 = reader1.batches();
    let ghost bs2 = reader2.batches();
    let ghost ps = zip_batches(bs1, bs2);
    let ghost src_err = paired_source_error(
        bs1.len() as int,
        reader1.source_fails(),
        bs2.len() as int,
        reader2.source_fails(),
    );
    let ghost t = num_threads as int;
    let mut source1 = reader1;
    let mut source2 = reader2;

    let mut workers: Vec<P> = Vec::new();
    let mut i: usize = 0;
    while i < num_threads
        invariant
            i <= num_threads,
            workers@.len() == i,
            forall|w: int|
                0 <= w < i ==> (#[trigger] workers@[w]).history() == Seq::<ProcEvent>::empty()
                    && workers@[w].thread_id_view() == Some(w as usize),
        decreases num_threads - i,
    {
        let mut p = processor.clone_for_worker();
        p.set_thread_id(i);
        workers.push(p);
        i += 1;
    }

    let mut batch1: Vec<OwnedRecord> = Vec::new();
    let mut batch2: Vec<OwnedRecord> = Vec::new();
    let mut w: usize = 0;
    let ghost mut j: int = 0;
    let mut verdict: Result<(), PipelineError> = Ok(());
    let mut failed: Option<usize> = None;
    loop
        invariant_except_break
            verdict is Ok,
            failed is None,
            j + source1.batches().len() == bs1.len(),
            j + source2.batches().len() == bs2.len(),
            source1.batches() == bs1.skip(j),
            source2.batches() == bs2.skip(j),
            source1.source_fails() == reader1.source_fails(),
            source2.source_fails() == reader2.source_fails(),
            forall|v: int|
                0 <= v < t ==> (#[trigger] workers@[v]).history() == paired_session_events(
                    worker_batches(ps.take(j), v, t),
                ),
        invariant
            1 <= num_threads,
            t == num_threads as int,
            bs1 == reader1.batches(),
            bs2 == reader2.batches(),
            ps == zip_batches(bs1, bs2),
            src_err == paired_source_error(
                bs1.len() as int,
                reader1.source_fails(),
                bs2.len() as int,
                reader2.source_fails(),
            ),
            workers@.len() == num_threads,
            0 <= j,
            j <= ps.len(),
            w < num_threads,
            w as int == j % t,
            forall|v: int|
                0 <= v < t ==> (#[trigger] workers@[v]).thread_id_view() == Some(v as usize),
        ensures
            workers@.len() == num_threads,
            0 <= j <= ps.len(),
            forall|v: int|
                0 <= v < t ==> (#[trigger] workers@[v]).thread_id_view() == Some(v as usize),
            verdict is Ok ==> j == ps.len() && !src_err && failed is None,
            verdict matches Err(e) ==> (failed is None && e is Source && src_err && j == ps.len())
                || (failed matches Some(f) && f < num_threads && f as int == j % t && e is Process
                && 0 <= j < ps.len()),
            failed matches Some(f) ==> exists|k: int|
                0 <= k <= pair_events(ps[j].0, ps[j].1).len() && (
                #[trigger] workers@[f as int].history()) == paired_session_events(
                    worker_batches(ps.take(j), f as int, t),
                ) + pair_events(ps[j].0, ps[j].1).take(k),
            forall|v: int|
                0 <= v < t && (failed is None || v != failed->0) ==> (
                #[trigger] workers@[v]).history() == paired_session_events(
                    worker_batches(ps.take(j), v, t),
                ),
        decreases source1.batches().len() + source2.batches().len(),
    {
        let o1 = source1.fill_next(&mut batch1);
        let o2 = source2.fill_next(&mut batch2);
        match (o1, o2) {
            (ReadOutcome::Filled, ReadOutcome::Filled) => {
                proof {
                    assert(bs1.skip(j)[0] == bs1[j]);
                    assert(bs2.skip(j)[0] == bs2[j]);
                    assert(bs1.skip(j).drop_first() =~= bs1.skip(j + 1));
                    assert(bs2.skip(j).drop_first() =~= bs2.skip(j + 1));
                    assert(j < ps.len());
                    assert(ps[j] == (bs1[j], bs2[j]));
                }
                let mut p = workers.remove(w);
                let ghost pre = workers@;
                let ghost ph = p.history();
                let r = drain_paired_batch(&batch1, &batch2, &mut p);
                workers.insert(w, p);
                proof {
                    assert(workers@ =~= pre.insert(w as int, p));
                }
                match r {
                    Ok(()) => {
                        proof {
                            lemma_paired_dispatch_step(ps, j, w as int, t);
                            lemma_paired_session_step(
                                worker_batches(ps.take(j), w as int, t),
                                ps[j],
                            );
                            assert(paired_batch_events(ps[j].0, ps[j].1) == paired_batch_events(
                                view_of_batch(batch1@),
                                view_of_batch(batch2@),
                            ));
                            assert forall|v: int|
                                0 <= v < t && v != w as int implies worker_batches(
                                ps.take(j + 1),
                                v,
                                t,
                            ) == worker_batches(ps.take(j), v, t) by {
                                lemma_paired_dispatch_step(ps, j, v, t);
                            }
                            crate::engine::lemma_rr_advance(j, t);
                            j = j + 1;
                        }
                        w = if w + 1 == num_threads {
                            0
                        } else {
                            w + 1
                        };
                    },
                    Err(e) => {
                        proof {
                            let v1 = view_of_batch(batch1@);
                            let v2 = view_of_batch(batch2@);
                            let k0 = choose|k0: int|
                                0 <= k0 <= pair_events(v1, v2).len() && workers@[w as int].history()
                                    == ph + pair_events(v1, v2).take(k0);
                            assert(v1 == ps[j].0 && v2 == ps[j].1);
                            assert(workers@[w as int].history() == paired_session_events(
                                worker_batches(ps.take(j), w as int, t),
                            ) + pair_events(ps[j].0, ps[j].1).take(k0));
                        }
                        verdict = Err(e);
                        failed = Some(w);
                        break ;
                    },
                }
            },
            (ReadOutcome::Failed(e), ReadOutcome::Filled) => {
                proof {
                    assert(j == bs1.len() && j < bs2.len());
                    assert(j == ps.len());
                }
                verdict = Err(e);
                break ;
            },
            (ReadOutcome::Failed(e), ReadOutcome::Failed(_)) => {
                proof {
                    assert(j == bs1.len() && j == bs2.len());
                    assert(j == ps.len());
                }
                verdict = Err(e);
                break ;
            },
            (ReadOutcome::Filled, ReadOutcome::Failed(e)) => {
                proof {
                    assert(j == bs2.len() && j < bs1.len());
                    assert(j == ps.len());
                }
                verdict = Err(e);
                break ;
            },
            _ => {
                proof {
                    assert(j == ps.len());
                }
                break ;
            },
        }
    }

    proof {
        if j == ps.len() {
            assert(ps.take(j) =~= ps);
        }
    }
    let ghost assigned_upto = ps.take(j);

    let mut comp_err: Option<PipelineError> = None;
    let ghost mut comp_witness: int = 0;
    let mut v: usize = 0;
    while v < num_threads
        invariant
            1 <= num_threads,
            t == num_threads as int,
            ps == zip_batches(reader1.batches(), reader2.batches()),
            src_err == paired_source_error(
                reader1.batches().len() as int,
                reader1.source_fails(),
                reader2.batches().len() as int,
                reader2.source_fails(),
            ),
            0 <= j <= ps.len(),
            assigned_upto == ps.take(j),
            j == ps.len() ==> assigned_upto == ps,
            verdict is Ok ==> j == ps.len() && !src_err && failed is None,
            verdict matches Err(e) ==> (failed is None && e is Source && src_err && j == ps.len())
                || (failed matches Some(f) && f < num_threads && f as int == j % t && e is Process
                && 0 <= j < ps.len()),
            v <= num_threads,
            workers@.len() == num_threads,
            forall|u: int|
                0 <= u < t ==> (#[trigger] workers@[u]).thread_id_view() == Some(u as usize),
            failed matches Some(f) ==> exists|k: int|
                0 <= k <= pair_events(ps[j].0, ps[j].1).len() && (
                #[trigger] workers@[f as int].history()) == paired_session_events(
                    worker_batches(assigned_upto, f as int, t),
                ) + pair_events(ps[j].0, ps[j].1).take(k),
            forall|u: int|
                0 <= u < t && v <= u && (failed is None || u != failed->0) ==> (
                #[trigger] workers@[u]).history() == paired_session_events(
                    worker_batches(assigned_upto, u, t),
                ),
            forall|u: int|
                0 <= u < v && (failed is None || u != failed->0) ==> paired_finished_history(
                    (#[trigger] workers@[u]).history(),
                    worker_batches(assigned_upto, u, t),
                ),
            comp_err is None ==> forall|u: int|
                0 <= u < v && (failed is None || u != failed->0) ==> (
                #[trigger] workers@[u]).history() == paired_session_events(
                    worker_batches(assigned_upto, u, t),
                ).push(ProcEvent::ThreadDone),
            comp_err is Some ==> 0 <= comp_witness < v && (failed is None || comp_witness
                != failed->0) && workers@[comp_witness].history() == paired_session_events(
                worker_batches(assigned_upto, comp_witness, t),
            ),
            comp_err is Some ==> forall|u: int|
                0 <= u < comp_witness && (failed is None || u != failed->0) ==> (
                #[trigger] workers@[u]).history() == paired_session_events(
                    worker_batches(assigned_upto, u, t),
                ).push(ProcEvent::ThreadDone),
            comp_err matches Some(e) ==> e is Process,
        decreases num_threads - v,
    {
        let skip = match failed {
            Some(f) => f == v,
            None => false,
        };
        if !skip {
            let mut p = workers.remove(v);
            let ghost pre = workers@;
            let r = p.on_thread_complete();
            workers.insert(v, p);
            proof {
                assert(workers@ =~= pre.insert(v as int, p));
            }
            if comp_err.is_none() {
                if let Err(e) = r {
                    comp_err = Some(e);
                    proof {
                        comp_witness = v as int;
                    }
                }
            }
        }
        v += 1;
    }

    let ghost gverdict = verdict;
    let ghost gcomp = comp_err;
    let result: Result<(), PipelineError> = match verdict {
        Err(e) => Err(e),
        Ok(()) => match comp_err {
            Some(e) => Err(e),
            None => Ok(()),
        },
    };
    proof {
        let ws = workers@;
        if gverdict is Err {
            assert(result == gverdict);
            if failed is Some {
                assert(paired_drain_abort(ps, t, j, ws));
            } else {
                assert(assigned_upto == ps);
            }
        } else if gcomp is Some {
            assert(assigned_upto == ps);
            assert(result == Err::<(), PipelineError>(gcomp->0));
            assert(ws[comp_witness].history() == paired_session_events(
                worker_batches(ps, comp_witness, t),
            ));
        } else {
            assert(assigned_upto == ps);
        }
    }
    (result, workers, Ghost(j))
}

} // verus!
