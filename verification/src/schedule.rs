//! The spec-level schedule of a pipeline run: the callback events one batch
//! produces, the batches a worker drains under round-robin dispatch, and the
//! counting lemmas that relate a run's histories back to its input.

use vstd::prelude::*;

use crate::processor::ProcEvent;
use crate::records::{OwnedRecord, RecordData};

verus! {

/// The views of the records of one batch, in parse order.
pub open spec fn view_of_batch(b: Seq<OwnedRecord>) -> Seq<RecordData> {
    b.map_values(|r: OwnedRecord| r@)
}

/// The per-record events one batch delivers, in parse order.
pub open spec fn rec_events(batch: Seq<RecordData>) -> Seq<ProcEvent> {
    batch.map_values(|r: RecordData| ProcEvent::Rec(r))
}

/// Every event one drained batch delivers: its records in order, then the
/// batch-complete callback.
pub open spec fn batch_events(batch: Seq<RecordData>) -> Seq<ProcEvent> {
    rec_events(batch).push(ProcEvent::BatchDone)
}

/// Every event a worker observes for a sequence of drained batches.
pub open spec fn session_events(bs: Seq<Seq<RecordData>>) -> Seq<ProcEvent>
    decreases bs.len(),
{
    if bs.len() == 0 {
        Seq::empty()
    } else {
        session_events(bs.drop_last()) + batch_events(bs.last())
    }
}

/// The index-aligned pairs two parallel batches deliver, up to the shorter
/// batch's length.
pub open spec fn pair_events(b1: Seq<RecordData>, b2: Seq<RecordData>) -> Seq<ProcEvent> {
    Seq::new(
        if b1.len() <= b2.len() {
            b1.len()
        } else {
            b2.len()
        },
        |i: int| ProcEvent::PairRec(b1[i], b2[i]),
    )
}

/// Every event one drained paired slot delivers.
pub open spec fn paired_batch_events(b1: Seq<RecordData>, b2: Seq<RecordData>) -> Seq<ProcEvent> {
    pair_events(b1, b2).push(ProcEvent::BatchDone)
}

/// Every event a worker observes for a sequence of drained paired slots.
pub open spec fn paired_session_events(bs: Seq<(Seq<RecordData>, Seq<RecordData>)>) -> Seq<
    ProcEvent,
>
    decreases bs.len(),
{
    if bs.len() == 0 {
        Seq::empty()
    } else {
        paired_session_events(bs.drop_last()) + paired_batch_events(bs.last().0, bs.last().1)
    }
}

/// The batches that round-robin dispatch over `t` workers hands to worker
/// `w`: batch `k` goes to worker `k % t`, so batches keep their relative
/// order within each worker.
pub open spec fn worker_batches<A>(bs: Seq<A>, w: int, t: int) -> Seq<A>
    decreases bs.len(),
{
    if bs.len() == 0 {
        Seq::empty()
    } else if (bs.len() - 1) % t == w {
        worker_batches(bs.drop_last(), w, t).push(bs.last())
    } else {
        worker_batches(bs.drop_last(), w, t)
    }
}

/// How many per-record events a history holds.
pub open spec fn rec_count(h: Seq<ProcEvent>) -> int
    decreases h.len(),
{
    if h.len() == 0 {
        0
    } else {
        rec_count(h.drop_last()) + if h.last() is Rec {
            1int
        } else {
            0int
        }
    }
}

/// How many batch-complete events a history holds.
pub open spec fn batch_done_count(h: Seq<ProcEvent>) -> int
    decreases h.len(),
{
    if h.len() == 0 {
        0
    } else {
        batch_done_count(h.drop_last()) + if h.last() is BatchDone {
            1int
        } else {
            0int
        }
    }
}

/// How many records a sequence of batches holds in all.
pub open spec fn total_records(bs: Seq<Seq<RecordData>>) -> int
    decreases bs.len(),
{
    if bs.len() == 0 {
        0
    } else {
        total_records(bs.drop_last()) + bs.last().len()
    }
}

/// The per-record events observed by workers `0 .. w` together, when `t`
/// workers drain `bs` under round-robin dispatch and each completes.
pub open spec fn processed_across(bs: Seq<Seq<RecordData>>, w: int, t: int) -> int
    decreases w,
{
    if w <= 0 {
        0
    } else {
        processed_across(bs, w - 1, t) + rec_count(session_events(worker_batches(bs, w - 1, t)))
    }
}

/// The batch-complete events observed by workers `0 .. w` together.
pub open spec fn completions_across(bs: Seq<Seq<RecordData>>, w: int, t: int) -> int
    decreases w,
{
    if w <= 0 {
        0
    } else {
        completions_across(bs, w - 1, t) + batch_done_count(
            session_events(worker_batches(bs, w - 1, t)),
        )
    }
}

pub proof fn lemma_rec_count_add(a: Seq<ProcEvent>, b: Seq<ProcEvent>)
    ensures
        rec_count(a + b) == rec_count(a) + rec_count(b),
        batch_done_count(a + b) == batch_done_count(a) + batch_done_count(b),
    decreases b.len(),
{
    if b.len() == 0 {
        assert(a + b =~= a);
    } else {
        lemma_rec_count_add(a, b.drop_last());
        assert((a + b).drop_last() =~= a + b.drop_last());
        assert((a + b).last() == b.last());
    }
}

pub proof fn lemma_batch_event_counts(batch: Seq<RecordData>)
    ensures
        rec_count(batch_events(batch)) == batch.len(),
        batch_done_count(batch_events(batch)) == 1,
    decreases batch.len(),
{
    lemma_rec_events_counts(batch);
    assert(batch_events(batch).drop_last() =~= rec_events(batch));
}

pub proof fn lemma_rec_events_counts(batch: Seq<RecordData>)
    ensures
        rec_count(rec_events(batch)) == batch.len(),
        batch_done_count(rec_events(batch)) == 0,
    decreases batch.len(),
{
    if batch.len() > 0 {
        lemma_rec_events_counts(batch.drop_last());
        assert(rec_events(batch).drop_last() =~= rec_events(batch.drop_last()));
        assert(rec_events(batch).last() == ProcEvent::Rec(batch.last()));
    }
}

/// A worker's whole session delivers exactly one per-record event per
/// record assigned to it, and exactly one batch-complete event per batch.
pub proof fn lemma_session_counts(bs: Seq<Seq<RecordData>>)
    ensures
        rec_count(session_events(bs)) == total_records(bs),
        batch_done_count(session_events(bs)) == bs.len(),
    decreases bs.len(),
{
    if bs.len() > 0 {
        lemma_session_counts(bs.drop_last());
        lemma_rec_count_add(session_events(bs.drop_last()), batch_events(bs.last()));
        lemma_batch_event_counts(bs.last());
    }
}

proof fn lemma_across_empty(w: int, t: int)
    requires
        t >= 1,
    ensures
        processed_across(Seq::<Seq<RecordData>>::empty(), w, t) == 0,
        completions_across(Seq::<Seq<RecordData>>::empty(), w, t) == 0,
    decreases w,
{
    if w > 0 {
        lemma_across_empty(w - 1, t);
        lemma_session_counts(worker_batches(Seq::<Seq<RecordData>>::empty(), w - 1, t));
    }
}

proof fn lemma_across_push(bs: Seq<Seq<RecordData>>, b: Seq<RecordData>, w: int, t: int)
    requires
        t >= 1,
        0 <= w <= t,
    ensures
        processed_across(bs.push(b), w, t) == processed_across(bs, w, t) + if bs.len() as int % t < w {
            b.len() as int
        } else {
            0int
        },
        completions_across(bs.push(b), w, t) == completions_across(bs, w, t) + if bs.len() as int % t
            < w {
            1int
        } else {
            0int
        },
    decreases w,
{
    if w > 0 {
        lemma_across_push(bs, b, w - 1, t);
        let s = bs.push(b);
        assert(s.drop_last() =~= bs);
        let assigned = worker_batches(bs, w - 1, t);
        if bs.len() as int % t == w - 1 {
            assert(worker_batches(s, w - 1, t) == assigned.push(b));
            assert(assigned.push(b).drop_last() =~= assigned);
            lemma_rec_count_add(session_events(assigned), batch_events(b));
            lemma_batch_event_counts(b);
        } else {
            assert(worker_batches(s, w - 1, t) == assigned);
        }
    }
}

/// The per-worker event totals of workers `0 .. t` together, under
/// round-robin dispatch of `bs`: every record of every batch is delivered
/// exactly once across all workers, and every batch completes exactly once
/// across all workers. This is the completeness of the dispatch: the
/// workers' sessions partition the input, with no duplicate and no
/// omission.
pub proof fn lemma_round_trip_completeness(bs: Seq<Seq<RecordData>>, t: int)
    requires
        t >= 1,
    ensures
        processed_across(bs, t, t) == total_records(bs),
        completions_across(bs, t, t) == bs.len(),
    decreases bs.len(),
{
    vstd::arithmetic::div_mod::lemma_mod_bound(bs.len() as int - 1, t);
    if bs.len() == 0 {
        assert(bs =~= Seq::<Seq<RecordData>>::empty());
        lemma_across_empty(t, t);
    } else {
        let bs0 = bs.drop_last();
        lemma_round_trip_completeness(bs0, t);
        assert(bs0.push(bs.last()) =~= bs);
        lemma_across_push(bs0, bs.last(), t, t);
        vstd::arithmetic::div_mod::lemma_mod_bound(bs0.len() as int, t);
    }
}

/// The batch-complete callback fires exactly once per drained batch,
/// across all workers combined: `t` workers draining `bs` under round-robin
/// dispatch observe exactly `bs.len()` batch-complete events in all.
pub proof fn lemma_batch_complete_once_per_batch(bs: Seq<Seq<RecordData>>, t: int)
    requires
        t >= 1,
    ensures
        completions_across(bs, t, t) == bs.len(),
{
    lemma_round_trip_completeness(bs, t);
}

/// How many per-pair events a history holds.
pub open spec fn pair_count(h: Seq<ProcEvent>) -> int
    decreases h.len(),
{
    if h.len() == 0 {
        0
    } else {
        pair_count(h.drop_last()) + if h.last() is PairRec {
            1int
        } else {
            0int
        }
    }
}

/// How many index-aligned pairs a sequence of paired batches delivers in
/// all: each paired slot contributes pairs up to its shorter half.
pub open spec fn total_pairs(ps: Seq<(Seq<RecordData>, Seq<RecordData>)>) -> int
    decreases ps.len(),
{
    if ps.len() == 0 {
        0
    } else {
        total_pairs(ps.drop_last()) + pair_events(ps.last().0, ps.last().1).len()
    }
}

/// The per-pair events observed by workers `0 .. w` together, when `t`
/// workers drain the paired slots `ps` under round-robin dispatch and each
/// completes.
pub open spec fn pairs_across(ps: Seq<(Seq<RecordData>, Seq<RecordData>)>, w: int, t: int) -> int
    decreases w,
{
    if w <= 0 {
        0
    } else {
        pairs_across(ps, w - 1, t) + pair_count(
            paired_session_events(worker_batches(ps, w - 1, t)),
        )
    }
}

/// The batch-complete events observed by workers `0 .. w` together in a
/// paired run.
pub open spec fn paired_completions_across(
    ps: Seq<(Seq<RecordData>, Seq<RecordData>)>,
    w: int,
    t: int,
) -> int
    decreases w,
{
    if w <= 0 {
        0
    } else {
        paired_completions_across(ps, w - 1, t) + batch_done_count(
            paired_session_events(worker_batches(ps, w - 1, t)),
        )
    }
}

pub proof fn lemma_pair_count_add(a: Seq<ProcEvent>, b: Seq<ProcEvent>)
    ensures
        pair_count(a + b) == pair_count(a) + pair_count(b),
    decreases b.len(),
{
    if b.len() == 0 {
        assert(a + b =~= a);
    } else {
        lemma_pair_count_add(a, b.drop_last());
        assert((a + b).drop_last() =~= a + b.drop_last());
        assert((a + b).last() == b.last());
    }
}

proof fn lemma_pair_count_all_pairs(s: Seq<ProcEvent>)
    requires
        forall|i: int| 0 <= i < s.len() ==> (#[trigger] s[i]) is PairRec,
    ensures
        pair_count(s) == s.len(),
        batch_done_count(s) == 0,
    decreases s.len(),
{
    if s.len() > 0 {
        lemma_pair_count_all_pairs(s.drop_last());
    }
}

pub proof fn lemma_paired_batch_event_counts(b1: Seq<RecordData>, b2: Seq<RecordData>)
    ensures
        pair_count(paired_batch_events(b1, b2)) == pair_events(b1, b2).len(),
        batch_done_count(paired_batch_events(b1, b2)) == 1,
{
    lemma_pair_count_all_pairs(pair_events(b1, b2));
    assert(paired_batch_events(b1, b2).drop_last() =~= pair_events(b1, b2));
}

/// A worker's whole paired session delivers exactly one per-pair event per
/// assigned pair, and exactly one batch-complete event per assigned slot.
pub proof fn lemma_paired_session_counts(ps: Seq<(Seq<RecordData>, Seq<RecordData>)>)
    ensures
        pair_count(paired_session_events(ps)) == total_pairs(ps),
        batch_done_count(paired_session_events(ps)) == ps.len(),
    decreases ps.len(),
{
    if ps.len() > 0 {
        lemma_paired_session_counts(ps.drop_last());
        lemma_pair_count_add(
            paired_session_events(ps.drop_last()),
            paired_batch_events(ps.last().0, ps.last().1),
        );
        lemma_rec_count_add(
            paired_session_events(ps.drop_last()),
            paired_batch_events(ps.last().0, ps.last().1),
        );
        lemma_paired_batch_event_counts(ps.last().0, ps.last().1);
    }
}

proof fn lemma_paired_across_empty(w: int, t: int)
    requires
        t >= 1,
    ensures
        pairs_across(Seq::<(Seq<RecordData>, Seq<RecordData>)>::empty(), w, t) == 0,
        paired_completions_across(Seq::<(Seq<RecordData>, Seq<RecordData>)>::empty(), w, t) == 0,
    decreases w,
{
    if w > 0 {
        lemma_paired_across_empty(w - 1, t);
        lemma_paired_session_counts(
            worker_batches(Seq::<(Seq<RecordData>, Seq<RecordData>)>::empty(), w - 1, t),
        );
    }
}

proof fn lemma_paired_across_push(
    ps: Seq<(Seq<RecordData>, Seq<RecordData>)>,
    b: (Seq<RecordData>, Seq<RecordData>),
    w: int,
    t: int,
)
    requires
        t >= 1,
        0 <= w <= t,
    ensures
        pairs_across(ps.push(b), w, t) == pairs_across(ps, w, t) + if ps.len() as int % t < w {
            pair_events(b.0, b.1).len() as int
        } else {
            0int
        },
        paired_completions_across(ps.push(b), w, t) == paired_completions_across(ps, w, t) + if ps
            .len() as int % t < w {
            1int
        } else {
            0int
        },
    decreases w,
{
    if w > 0 {
        lemma_paired_across_push(ps, b, w - 1, t);
        let s = ps.push(b);
        assert(s.drop_last() =~= ps);
        let assigned = worker_batches(ps, w - 1, t);
        if ps.len() as int % t == w - 1 {
            assert(worker_batches(s, w - 1, t) == assigned.push(b));
            assert(assigned.push(b).drop_last() =~= assigned);
            lemma_pair_count_add(paired_session_events(assigned), paired_batch_events(b.0, b.1));
            lemma_rec_count_add(paired_session_events(assigned), paired_batch_events(b.0, b.1));
            lemma_paired_batch_event_counts(b.0, b.1);
        } else {
            assert(worker_batches(s, w - 1, t) == assigned);
        }
    }
}

/// The paired counterpart of the round-trip law: `t` workers draining the
/// paired slots `ps` under round-robin dispatch observe, across all
/// workers, exactly one per-pair event for every pair the two streams
/// deliver together, and exactly one batch-complete event per slot.
pub proof fn lemma_paired_round_trip_completeness(
    ps: Seq<(Seq<RecordData>, Seq<RecordData>)>,
    t: int,
)
    requires
        t >= 1,
    ensures
        pairs_across(ps, t, t) == total_pairs(ps),
        paired_completions_across(ps, t, t) == ps.len(),
    decreases ps.len(),
{
    if ps.len() == 0 {
        assert(ps =~= Seq::<(Seq<RecordData>, Seq<RecordData>)>::empty());
        lemma_paired_across_empty(t, t);
    } else {
        let ps0 = ps.drop_last();
        lemma_paired_round_trip_completeness(ps0, t);
        assert(ps0.push(ps.last()) =~= ps);
        lemma_paired_across_push(ps0, ps.last(), t, t);
        vstd::arithmetic::div_mod::lemma_mod_bound(ps0.len() as int, t);
    }
}

} // verus!
