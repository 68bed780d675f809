//! Error taxonomy of the pipeline and the policy that picks the error a
//! finished pipeline reports.

use vstd::prelude::*;

verus! {

/// A fatal condition observed by the pipeline.
///
/// `Source` errors are raised while filling a slot from the input (malformed
/// input, truncated record, I/O failure). `Process` errors are raised by the
/// processor's callbacks. `Disconnected` marks a hand-off queue whose other
/// side is gone while a token still had to be sent: a breakdown of the
/// reader/worker protocol, surfaced as an error because the library's
/// verified functions never panic.
pub enum PipelineError {
    Source(String),
    Process(String),
    Disconnected,
}

/// The error a pipeline reports when several threads failed: the reader's
/// error takes precedence, then the failed worker with the lowest thread id.
pub open spec fn spec_first_failure(
    reader: Result<(), PipelineError>,
    workers: Seq<Result<(), PipelineError>>,
) -> Result<(), PipelineError>
    decreases workers.len(),
{
    if reader is Err {
        reader
    } else if workers.len() == 0 {
        Ok(())
    } else if workers[0] is Err {
        workers[0]
    } else {
        spec_first_failure(Ok(()), workers.drop_first())
    }
}

/// Combines the reader's result with the workers' results, in thread-id
/// order: the reader's error wins, then the first failed worker's.
pub fn first_failure(
    reader: Result<(), PipelineError>,
    workers: Vec<Result<(), PipelineError>>,
) -> (r: Result<(), PipelineError>)
    ensures
        r == spec_first_failure(reader, workers@),
{
    if reader.is_err() {
        return reader;
    }
    let ghost all = workers@;
    let mut rest = workers;
    loop
        invariant
            all == workers@,
            spec_first_failure(Ok(()), rest@) == spec_first_failure(reader, all),
        decreases rest@.len(),
    {
        if rest.len() == 0 {
            return Ok(());
        }
        let ghost pre = rest@;
        let head = rest.remove(0);
        proof {
            assert(rest@ =~= pre.drop_first());
        }
        if head.is_err() {
            return head;
        }
    }
}

} // verus!
