//! The processor lifecycle contract: the callbacks a worker invokes over
//! each batch it drains, and the ghost history through which the engine's
//! contracts pin when and in what order they were called.

use vstd::prelude::*;

use crate::errors::PipelineError;
use crate::records::{MinimalRefRecord, RecordData};

verus! {

/// One observable callback delivered to a processor instance.
pub enum ProcEvent {
    Rec(RecordData),
    PairRec(RecordData, RecordData),
    BatchDone,
    ThreadDone,
}

/// A type that processes records in parallel.
///
/// Each worker thread holds an independent instance, made by
/// `clone_for_worker` before the worker starts. `history()` is the sequence
/// of callbacks the instance has observed; every callback either appends
/// exactly its own event or, when it fails, leaves the history unchanged, so
/// the engine's contracts state exactly which records were processed and in
/// what order.
pub trait ParallelProcessor: Sized {
    /// The callbacks this instance has observed, in order.
    spec fn history(&self) -> Seq<ProcEvent>;

    /// The worker thread id this instance was given, if any.
    spec fn thread_id_view(&self) -> Option<usize>;

    /// A fresh instance for one worker thread: it has observed nothing and
    /// carries no thread id yet. Cross-thread state (an atomically updated
    /// aggregate, say) may be shared with the clone; the history is the
    /// instance's own.
    fn clone_for_worker(&self) -> (p: Self)
        ensures
            p.history() == Seq::<ProcEvent>::empty(),
            p.thread_id_view() is None,
    ;

    /// Called once per record, in the exact order the records appeared in
    /// the batch.
    fn process_record<Rf: MinimalRefRecord>(&mut self, record: &Rf) -> (r: Result<
        (),
        PipelineError,
    >)
        ensures
            r is Ok ==> final(self).history() == old(self).history().push(
                ProcEvent::Rec(record.rec_view()),
            ),
            r is Err ==> final(self).history() == old(self).history(),
            r matches Err(e) ==> e is Process,
            final(self).thread_id_view() == old(self).thread_id_view(),
    ;

    /// Called exactly once per drained slot, after all its records.
    fn on_batch_complete(&mut self) -> (r: Result<(), PipelineError>)
        ensures
            r is Ok ==> final(self).history() == old(self).history().push(ProcEvent::BatchDone),
            r is Err ==> final(self).history() == old(self).history(),
            r matches Err(e) ==> e is Process,
            final(self).thread_id_view() == old(self).thread_id_view(),
    ;

    /// Called exactly once per worker, after its last batch.
    fn on_thread_complete(&mut self) -> (r: Result<(), PipelineError>)
        ensures
            r is Ok ==> final(self).history() == old(self).history().push(ProcEvent::ThreadDone),
            r is Err ==> final(self).history() == old(self).history(),
            r matches Err(e) ==> e is Process,
            final(self).thread_id_view() == old(self).thread_id_view(),
    ;

    /// Gives the instance its worker's thread id, once at worker startup.
    fn set_thread_id(&mut self, thread_id: usize)
        ensures
            final(self).thread_id_view() == Some(thread_id),
            final(self).history() == old(self).history(),
    ;

    /// The thread id the instance was given. Calling it on an instance that
    /// was never given one is a contract violation, ruled out by the
    /// precondition rather than answered with a panic.
    fn get_thread_id(&self) -> (r: usize)
        requires
            self.thread_id_view() is Some,
        ensures
            Some(r) == self.thread_id_view(),
    ;
}

/// A type that processes pairs of records in parallel: the paired-stream
/// counterpart of `ParallelProcessor`, with a per-pair callback in place of
/// the per-record one.
pub trait PairedParallelProcessor: Sized {
    /// The callbacks this instance has observed, in order.
    spec fn history(&self) -> Seq<ProcEvent>;

    /// The worker thread id this instance was given, if any.
    spec fn thread_id_view(&self) -> Option<usize>;

    /// A fresh instance for one worker thread.
    fn clone_for_worker(&self) -> (p: Self)
        ensures
            p.history() == Seq::<ProcEvent>::empty(),
            p.thread_id_view() is None,
    ;

    /// Called once per index-aligned pair, in the order the pairs appeared
    /// in the batch.
    fn process_record_pair<Rf: MinimalRefRecord>(&mut self, record1: &Rf, record2: &Rf) -> (r:
        Result<(), PipelineError>)
        ensures
            r is Ok ==> final(self).history() == old(self).history().push(
                ProcEvent::PairRec(record1.rec_view(), record2.rec_view()),
            ),
            r is Err ==> final(self).history() == old(self).history(),
            r matches Err(e) ==> e is Process,
            final(self).thread_id_view() == old(self).thread_id_view(),
    ;

    /// Called exactly once per drained slot, after all its pairs.
    fn on_batch_complete(&mut self) -> (r: Result<(), PipelineError>)
        ensures
            r is Ok ==> final(self).history() == old(self).history().push(ProcEvent::BatchDone),
            r is Err ==> final(self).history() == old(self).history(),
            r matches Err(e) ==> e is Process,
            final(self).thread_id_view() == old(self).thread_id_view(),
    ;

    /// Called exactly once per worker, after its last batch.
    fn on_thread_complete(&mut self) -> (r: Result<(), PipelineError>)
        ensures
            r is Ok ==> final(self).history() == old(self).history().push(ProcEvent::ThreadDone),
            r is Err ==> final(self).history() == old(self).history(),
            r matches Err(e) ==> e is Process,
            final(self).thread_id_view() == old(self).thread_id_view(),
    ;

    /// Gives the instance its worker's thread id, once at worker startup.
    fn set_thread_id(&mut self, thread_id: usize)
        ensures
            final(self).thread_id_view() == Some(thread_id),
            final(self).history() == old(self).history(),
    ;

    /// The thread id the instance was given; only valid after
    /// `set_thread_id`.
    fn get_thread_id(&self) -> (r: usize)
        requires
            self.thread_id_view() is Some,
        ensures
            Some(r) == self.thread_id_view(),
    ;
}

} // verus!
