//! A parallel processing engine for streams of sequential records.
//!
//! A single reader fills reusable batch slots and publishes their indices on
//! a bounded hand-off queue; a pool of workers drains the slots and invokes
//! user-supplied processing callbacks per record, per batch, and per thread.

use vstd::prelude::*;

pub mod accumulators;
pub mod engine;
pub mod errors;
pub mod handoff;
pub mod paired;
pub mod paired_pipeline;
pub mod pipeline;
pub mod processor;
pub mod records;
pub mod schedule;
pub mod slots;
pub mod sources;
pub mod worker;

pub use errors::PipelineError;
pub use processor::PairedParallelProcessor;
pub use processor::ParallelProcessor;
pub use records::MinimalRefRecord;
pub use records::OwnedRecord;

verus! {

/// The number of batch slots kept for a pool of `num_threads` workers:
/// twice the worker count, so the reader can fill one generation of slots
/// while the workers are still draining the previous one.
pub fn pool_size(num_threads: usize) -> (n: usize)
    requires
        num_threads <= usize::MAX / 2,
    ensures
        n == 2 * num_threads,
{
    2 * num_threads
}

} // verus!
