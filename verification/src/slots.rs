//! The batch slot pool: a fixed collection of reusable, independently
//! lockable batch containers, shared by the reader and all workers. The
//! locks are parking_lot mutexes behind trusted wrappers; nothing is
//! promised about a slot's contents across threads, so the verified loops
//! state their guarantees over whatever batch a slot hands back.

use vstd::prelude::*;

use crate::records::OwnedRecord;

verus! {

/// A fixed pool of slots, each holding one batch under its own lock.
#[verifier::external_body]
pub struct SlotPool {
    inner: std::sync::Arc<Vec<parking_lot::Mutex<Vec<OwnedRecord>>>>,
}

/// How many slots a pool holds, fixed at creation.
pub uninterp spec fn slot_count(pool: SlotPool) -> nat;

/// Relies on parking_lot::Mutex::new: allocates `count` slots, each with
/// its own lock, all initially empty.
#[verifier::external_body]
pub fn new_slot_pool(count: usize) -> (pool: SlotPool)
    ensures
        slot_count(pool) == count,
{
    let mut slots = Vec::new();
    for _ in 0..count {
        slots.push(parking_lot::Mutex::new(Vec::new()));
    }
    SlotPool { inner: std::sync::Arc::new(slots) }
}

/// The pool's slot count, for bounds checks before a slot is touched.
#[verifier::external_body]
pub fn num_slots(pool: &SlotPool) -> (n: usize)
    ensures
        n == slot_count(*pool),
{
    pool.inner.len()
}

/// Relies on parking_lot::Mutex::lock: blocks until slot `idx` is free,
/// then moves its batch out, leaving the slot empty. Which batch comes back
/// depends on what other threads stored, so nothing is claimed of it.
#[verifier::external_body]
pub fn take_slot(pool: &SlotPool, idx: usize) -> (batch: Vec<OwnedRecord>)
    requires
        idx < slot_count(*pool),
{
    let mut guard = pool.inner[idx].lock();
    std::mem::take(&mut *guard)
}

/// Relies on parking_lot::Mutex::lock: blocks until slot `idx` is free,
/// then stores `batch` in it, dropping what the slot held.
#[verifier::external_body]
pub fn store_slot(pool: &SlotPool, idx: usize, batch: Vec<OwnedRecord>)
    requires
        idx < slot_count(*pool),
{
    *pool.inner[idx].lock() = batch;
}

/// A fixed pool of paired slots, each holding two parallel batches under
/// one lock.
#[verifier::external_body]
pub struct PairedSlotPool {
    inner: std::sync::Arc<Vec<parking_lot::Mutex<(Vec<OwnedRecord>, Vec<OwnedRecord>)>>>,
}

/// How many paired slots a pool holds, fixed at creation.
pub uninterp spec fn paired_slot_count(pool: PairedSlotPool) -> nat;

/// Relies on parking_lot::Mutex::new: allocates `count` paired slots, each
/// with its own lock, all initially empty.
#[verifier::external_body]
pub fn new_paired_slot_pool(count: usize) -> (pool: PairedSlotPool)
    ensures
        paired_slot_count(pool) == count,
{
    let mut slots = Vec::new();
    for _ in 0..count {
        slots.push(parking_lot::Mutex::new((Vec::new(), Vec::new())));
    }
    PairedSlotPool { inner: std::sync::Arc::new(slots) }
}

/// The pool's slot count, for bounds checks before a slot is touched.
#[verifier::external_body]
pub fn num_paired_slots(pool: &PairedSlotPool) -> (n: usize)
    ensures
        n == paired_slot_count(*pool),
{
    pool.inner.len()
}

/// Relies on parking_lot::Mutex::lock: blocks until paired slot `idx` is
/// free, then moves both batches out, leaving the slot empty.
#[verifier::external_body]
pub fn take_paired_slot(pool: &PairedSlotPool, idx: usize) -> (batches: (
    Vec<OwnedRecord>,
    Vec<OwnedRecord>,
))
    requires
        idx < paired_slot_count(*pool),
{
    let mut guard = pool.inner[idx].lock();
    std::mem::take(&mut *guard)
}

/// Relies on parking_lot::Mutex::lock: blocks until paired slot `idx` is
/// free, then stores the two batches in it.
#[verifier::external_body]
pub fn store_paired_slot(
    pool: &PairedSlotPool,
    idx: usize,
    batch1: Vec<OwnedRecord>,
    batch2: Vec<OwnedRecord>,
)
    requires
        idx < paired_slot_count(*pool),
{
    *pool.inner[idx].lock() = (batch1, batch2);
}

} // verus!
