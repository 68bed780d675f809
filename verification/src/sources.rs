//! A record source backed by in-memory batches: the engine's sequential
//! source interface realised over plain values, as a harness for exercising
//! pipelines without an input stream.

use vstd::prelude::*;
use vstd::string::StringExecFns;

use crate::engine::{ParallelReader, ReadOutcome};
use crate::errors::PipelineError;
use crate::processor::{PairedParallelProcessor, ParallelProcessor};
use crate::records::{OwnedRecord, RecordData};
use crate::schedule::view_of_batch;

verus! {

/// A source that hands out a fixed list of batches, then either ends
/// cleanly or reports a hard source error.
pub struct VecReader {
    pub pending: Vec<Vec<OwnedRecord>>,
    pub fail_at_end: bool,
}

impl VecReader {
    /// A source delivering exactly `batches`, in order; it ends in a hard
    /// source error instead of clean end-of-input when `fail_at_end` holds.
    pub fn new(batches: Vec<Vec<OwnedRecord>>, fail_at_end: bool) -> (r: VecReader)
        ensures
            r.batches() == batches@.map_values(|b: Vec<OwnedRecord>| view_of_batch(b@)),
            r.source_fails() == fail_at_end,
    {
        VecReader { pending: batches, fail_at_end }
    }
}

impl ParallelReader for VecReader {
    open spec fn batches(&self) -> Seq<Seq<RecordData>> {
        self.pending@.map_values(|b: Vec<OwnedRecord>| view_of_batch(b@))
    }

    open spec fn source_fails(&self) -> bool {
        self.fail_at_end
    }

    fn fill_next(&mut self, batch: &mut Vec<OwnedRecord>) -> (o: ReadOutcome) {
        if self.pending.len() == 0 {
            if self.fail_at_end {
                ReadOutcome::Failed(
                    PipelineError::Source(String::from_str("the source ended in a hard error")),
                )
            } else {
                ReadOutcome::Finished
            }
        } else {
            let ghost pre = self.pending@;
            let next = self.pending.remove(0);
            *batch = next;
            proof {
                assert(self.pending@ =~= pre.drop_first());
                assert(self.batches() =~= old(self).batches().drop_first());
            }
            ReadOutcome::Filled
        }
    }

}

impl VecReader {
    /// Processes the whole source with `num_threads` workers, each holding
    /// an independent instance of `processor`, and reports the first fatal
    /// condition, if any: the run's full guarantee holds of some set of
    /// worker instances and some dispatch count.
    pub fn process_parallel<T: ParallelProcessor>(self, processor: T, num_threads: usize) -> (r:
        Result<(), PipelineError>)
        requires
            1 <= num_threads,
        ensures
            r is Ok ==> !self.source_fails(),
            exists|ws: Seq<T>, j: int|
                #[trigger] crate::engine::pipeline_outcome(
                    self.batches(),
                    self.source_fails(),
                    num_threads as int,
                    r,
                    ws,
                    j,
                ),
    {
        let (r, workers, dispatched) = crate::engine::run_pipeline(self, &processor, num_threads);
        proof {
            assert(crate::engine::pipeline_outcome(
                self.batches(),
                self.source_fails(),
                num_threads as int,
                r,
                workers@,
                dispatched@,
            ));
        }
        r
    }

    /// Processes this source and `reader2` in lock-step with `num_threads`
    /// workers, one pair of index-aligned batches per cycle, stopping
    /// cleanly when either source runs out: the run's full guarantee holds
    /// of some set of worker instances and some dispatch count.
    pub fn process_parallel_paired<T: PairedParallelProcessor>(
        self,
        reader2: Self,
        processor: T,
        num_threads: usize,
    ) -> (r: Result<(), PipelineError>)
        requires
            1 <= num_threads,
        ensures
            r is Ok ==> !crate::paired::paired_source_error(
                self.batches().len() as int,
                self.source_fails(),
                reader2.batches().len() as int,
                reader2.source_fails(),
            ),
            exists|ws: Seq<T>, j: int|
                #[trigger] crate::paired::paired_pipeline_outcome(
                    crate::paired::zip_batches(self.batches(), reader2.batches()),
                    crate::paired::paired_source_error(
                        self.batches().len() as int,
                        self.source_fails(),
                        reader2.batches().len() as int,
                        reader2.source_fails(),
                    ),
                    num_threads as int,
                    r,
                    ws,
                    j,
                ),
    {
        let (r, workers, dispatched) = crate::paired::run_paired_pipeline(
            self,
            reader2,
            &processor,
            num_threads,
        );
        proof {
            assert(crate::paired::paired_pipeline_outcome(
                crate::paired::zip_batches(self.batches(), reader2.batches()),
                crate::paired::paired_source_error(
                    self.batches().len() as int,
                    self.source_fails(),
                    reader2.batches().len() as int,
                    reader2.source_fails(),
                ),
                num_threads as int,
                r,
                workers@,
                dispatched@,
            ));
        }
        r
    }
}

} // verus!
