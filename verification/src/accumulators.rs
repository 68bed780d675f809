//! Ready-made processors: counting accumulators that realise the processor
//! lifecycle contract, as user code would, and a paired processor that
//! enforces a matching key across each record pair.

use vstd::prelude::*;
use vstd::string::StringExecFns;

use crate::errors::PipelineError;
use crate::processor::{PairedParallelProcessor, ParallelProcessor, ProcEvent};
use crate::records::MinimalRefRecord;

verus! {

/// Compares two byte strings for equality.
pub fn bytes_equal(a: &[u8], b: &[u8]) -> (r: bool)
    ensures
        r == (a@ == b@),
{
    if a.len() != b.len() {
        proof {
            assert(a@.len() != b@.len());
        }
        return false;
    }
    let mut i: usize = 0;
    while i < a.len()
        invariant
            i <= a@.len(),
            a@.len() == b@.len(),
            forall|k: int| 0 <= k < i ==> a@[k] == b@[k],
        decreases a@.len() - i,
    {
        if a[i] != b[i] {
            return false;
        }
        i += 1;
    }
    proof {
        assert(a@ =~= b@);
    }
    true
}

/// A single-stream processor that counts what it observes: records, batch
/// completions, thread completions, and the first header byte of every
/// record in arrival order.
pub struct CountingProcessor {
    pub records: usize,
    pub batches: usize,
    pub threads_done: usize,
    pub head_marks: Vec<u8>,
    pub thread_id: Option<usize>,
    pub log: Ghost<Seq<ProcEvent>>,
}

impl CountingProcessor {
    /// A processor that has observed nothing.
    pub fn new() -> (p: CountingProcessor)
        ensures
            p.history() == Seq::<ProcEvent>::empty(),
            p.thread_id_view() is None,
            p.records == 0,
            p.batches == 0,
            p.threads_done == 0,
            p.head_marks@.len() == 0,
    {
        CountingProcessor {
            records: 0,
            batches: 0,
            threads_done: 0,
            head_marks: Vec::new(),
            thread_id: None,
            log: Ghost(Seq::empty()),
        }
    }
}

impl ParallelProcessor for CountingProcessor {
    open spec fn history(&self) -> Seq<ProcEvent> {
        self.log@
    }

    open spec fn thread_id_view(&self) -> Option<usize> {
        self.thread_id
    }

    fn clone_for_worker(&self) -> (p: Self) {
        CountingProcessor::new()
    }

    fn process_record<Rf: MinimalRefRecord>(&mut self, record: &Rf) -> (r: Result<
        (),
        PipelineError,
    >) {
        if self.records < usize::MAX {
            self.records = self.records + 1;
        }
        let head = record.ref_head();
        if head.len() > 0 {
            self.head_marks.push(head[0]);
        } else {
            self.head_marks.push(0);
        }
        proof {
            self.log@ = self.log@.push(ProcEvent::Rec(record.rec_view()));
        }
        Ok(())
    }

    fn on_batch_complete(&mut self) -> (r: Result<(), PipelineError>) {
        if self.batches < usize::MAX {
            self.batches = self.batches + 1;
        }
        proof {
            self.log@ = self.log@.push(ProcEvent::BatchDone);
        }
        Ok(())
    }

    fn on_thread_complete(&mut self) -> (r: Result<(), PipelineError>) {
        if self.threads_done < usize::MAX {
            self.threads_done = self.threads_done + 1;
        }
        proof {
            self.log@ = self.log@.push(ProcEvent::ThreadDone);
        }
        Ok(())
    }

    fn set_thread_id(&mut self, thread_id: usize) {
        self.thread_id = Some(thread_id);
    }

    fn get_thread_id(&self) -> (r: usize) {
        match self.thread_id {
            Some(id) => id,
            None => 0,  // unreachable: the precondition owes a thread id
        }
    }
}

/// A paired processor that counts pairs and batch completions, and fails
/// with a processing error on the first pair whose header bytes differ.
pub struct HeaderCheckProcessor {
    pub pairs: usize,
    pub batches: usize,
    pub threads_done: usize,
    pub thread_id: Option<usize>,
    pub log: Ghost<Seq<ProcEvent>>,
}

impl HeaderCheckProcessor {
    /// A processor that has observed nothing.
    pub fn new() -> (p: HeaderCheckProcessor)
        ensures
            p.history() == Seq::<ProcEvent>::empty(),
            p.thread_id_view() is None,
            p.pairs == 0,
            p.batches == 0,
            p.threads_done == 0,
    {
        HeaderCheckProcessor {
            pairs: 0,
            batches: 0,
            threads_done: 0,
            thread_id: None,
            log: Ghost(Seq::empty()),
        }
    }
}

impl PairedParallelProcessor for HeaderCheckProcessor {
    open spec fn history(&self) -> Seq<ProcEvent> {
        self.log@
    }

    open spec fn thread_id_view(&self) -> Option<usize> {
        self.thread_id
    }

    fn clone_for_worker(&self) -> (p: Self) {
        HeaderCheckProcessor::new()
    }

    fn process_record_pair<Rf: MinimalRefRecord>(&mut self, record1: &Rf, record2: &Rf) -> (r:
        Result<(), PipelineError>) {
        if !bytes_equal(record1.ref_head(), record2.ref_head()) {
            return Err(PipelineError::Process(String::from_str("paired headers do not match")));
        }
        if self.pairs < usize::MAX {
            self.pairs = self.pairs + 1;
        }
        proof {
            self.log@ = self.log@.push(
                ProcEvent::PairRec(record1.rec_view(), record2.rec_view()),
            );
        }
        Ok(())
    }

    fn on_batch_complete(&mut self) -> (r: Result<(), PipelineError>) {
        if self.batches < usize::MAX {
            self.batches = self.batches + 1;
        }
        proof {
            self.log@ = self.log@.push(ProcEvent::BatchDone);
        }
        Ok(())
    }

    fn on_thread_complete(&mut self) -> (r: Result<(), PipelineError>) {
        if self.threads_done < usize::MAX {
            self.threads_done = self.threads_done + 1;
        }
        proof {
            self.log@ = self.log@.push(ProcEvent::ThreadDone);
        }
        Ok(())
    }

    fn set_thread_id(&mut self, thread_id: usize) {
        self.thread_id = Some(thread_id);
    }

    fn get_thread_id(&self) -> (r: usize) {
        match self.thread_id {
            Some(id) => id,
            None => 0,  // unreachable: the precondition owes a thread id
        }
    }
}

} // verus!
