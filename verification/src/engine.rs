//! The operations whose behaviour is taken on trust.
//!
//! Everything here is a thin door to code that lives outside this crate: the
//! standard library's atomics and reference-counted pointer, and the
//! `atomic-wait` crate's block and wake calls. Nothing is known to the verifier
//! about what the counters hold, so nothing is claimed about it either: the
//! callers decide on whatever value comes back.

use crate::counters::enroll;
use crate::counters::enrolled;
use crate::handle::Shared;
use std::sync::atomic::AtomicU32;
use std::sync::atomic::Ordering;
use std::sync::Arc;
use vstd::prelude::*;

verus! {

/// `atomic_wait::wait`: blocks the calling thread while `atomic` holds `value`,
/// until a wake-up reaches it; where `atomic` holds another value the call
/// returns at once. It may also return for no reason at all, so nothing is
/// claimed about the state in which it returns. It returns only if the value
/// moves or somebody wakes the thread: that somebody does is the business of
/// the protocol, not of this call.
pub assume_specification[ atomic_wait::wait ](atomic: &AtomicU32, value: u32);

/// `atomic_wait::wake_all`: wakes every thread that is blocked on `atomic`.
/// The call hands the address to the operating system and returns; it reports
/// nothing and never unwinds.
#[verifier::external_body]
pub(crate) fn wake_all(atomic: &AtomicU32)
    opens_invariants none
    no_unwind
{
    atomic_wait::wake_all(atomic)
}

/// `AtomicU32::fetch_sub` with acquire-release ordering: takes `val` off the
/// counter, wrapping around on underflow, and returns the value found. What
/// that value is depends on the other threads, so it is left open. All that
/// is claimed is that the call never unwinds, which the destructors of the
/// handles rely on.
#[verifier::external_body]
pub(crate) fn fetch_sub(atomic: &AtomicU32, val: u32) -> (prev: u32)
    opens_invariants none
    no_unwind
{
    atomic.fetch_sub(val, Ordering::AcqRel)
}

/// `AtomicU32::fetch_update` handed the decision [`enroll`], reading with
/// acquire ordering and writing with acquire-release ordering: the counter is
/// replaced by what `enroll` makes of it. The result is the value found, as `Ok`
/// where `enroll` accepted it and as `Err`, with the counter untouched, where
/// `enroll` refused it.
#[verifier::external_body]
pub(crate) fn fetch_enroll(atomic: &AtomicU32) -> (found: Result<u32, u32>)
    ensures
        found matches Ok(p) ==> enrolled(p) is Some,
        found matches Err(p) ==> enrolled(p) is None,
{
    atomic.fetch_update(Ordering::AcqRel, Ordering::Acquire, |n| enroll(n))
}

/// `Arc::clone`: another pointer to the same shared state. The call aborts
/// the process where more than `isize::MAX` pointers to one state exist. Each
/// pointer is held by a handle or a waiter, which takes up memory of its own,
/// so that only pointers that were leaked can get a group there; this crate
/// leaks none.
#[verifier::external_body]
pub(crate) fn share(shared: &Arc<Shared>) -> (other: Arc<Shared>)
    ensures
        other == *shared,
{
    Arc::clone(shared)
}

} // verus!
