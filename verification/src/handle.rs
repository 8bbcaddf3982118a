//! The handles of a rendezvous group.
//!
//! A [`Rendezvous`] is a participant that has not begun to leave. It leaves in
//! one of two ways. Dropping it (or calling [`Rendezvous::abandon`]) takes it
//! off both counters at once and never blocks. Calling [`Rendezvous::wait`]
//! takes it off `live` and turns it into a [`Waiter`], which stays on
//! `pending` until it has seen `live` at zero.
//!
//! A waiter blocks one round at a time, in [`Waiter::park`]. How many rounds
//! it takes depends on the other participants alone, so the loop around
//! `park` is the caller's: `while !w.is_released() { w.park(); }`.

use crate::counters::depart;
use crate::counters::settles;
use crate::counters::try_enroll;
use crate::counters::CapacityExceeded;
use crate::counters::Departure;
use crate::counters::CAPACITY;
use crate::engine::fetch_enroll;
use crate::engine::fetch_sub;
use crate::engine::share;
use crate::engine::wake_all;
use std::sync::atomic::AtomicU32;
use std::sync::atomic::Ordering;
use std::sync::Arc;
use vstd::prelude::*;

verus! {

/// The record that all handles of one group share: the number of handles that
/// have not begun to leave, and the number of handles that have not finished
/// leaving.
pub struct Shared {
    live: AtomicU32,
    pending: AtomicU32,
}

/// A reading of the two counters of a group. The two values are read one after
/// the other, so under concurrent use a reading is a hint and nothing more.
#[derive(Debug, Clone, Copy, PartialEq, Eq, Structural)]
pub struct Snapshot {
    pub live: u32,
    pub pending: u32,
}

/// A live participant of a rendezvous group.
pub struct Rendezvous {
    shared: Arc<Shared>,
    /// Whether the handle still stands on the two counters. It does from its
    /// creation until the call that retires it.
    armed: bool,
}

/// A participant that has begun to wait for the rest of its group.
pub struct Waiter {
    shared: Arc<Shared>,
    /// The latest reading of `live`.
    seen: u32,
    /// Whether the waiter has been taken off `pending`.
    settled: bool,
}

/// Takes one participant off `live`, and wakes the waiters where it was the
/// last one. Returns what the participant learned from the counter.
fn leave(shared: &Shared) -> (d: Departure)
    opens_invariants none
    no_unwind
{
    let d = depart(fetch_sub(&shared.live, 1));
    match d {
        Departure::Last => wake_all(&shared.live),
        Departure::Remaining(_) => {},
    }
    d
}

/// Takes one participant off `pending`. Returns whether it was the last one:
/// the departure that emptied `pending`. The memory of the shared state is
/// not returned here but by the reference-counted pointer, once the last
/// handle or waiter of the group has let go of it, which is never before
/// `pending` is empty.
fn settle(shared: &Shared) -> (last: bool)
    opens_invariants none
    no_unwind
{
    settles(fetch_sub(&shared.pending, 1))
}

/// Reads both counters.
fn read(shared: &Shared) -> (s: Snapshot) {
    let live: u32 = shared.live.load(Ordering::Acquire);
    let pending: u32 = shared.pending.load(Ordering::Acquire);
    Snapshot { live, pending }
}

impl Snapshot {
    /// Whether the reading shows at least as many pending handles as live
    /// ones, as every reading of a quiescent group does.
    pub fn is_consistent(&self) -> (b: bool)
        ensures
            b == (self.pending >= self.live),
    {
        self.pending >= self.live
    }
}

impl Rendezvous {
    /// The shared state of the group that the handle belongs to.
    pub closed spec fn group(&self) -> Shared {
        *self.shared
    }

    /// Whether the handle stands on the two counters of its group, so that
    /// the call that consumes it, or its destructor, takes it off them. A
    /// handle that did not would leave its group waiting for ever.
    pub closed spec fn is_live(&self) -> bool {
        self.armed
    }

    /// Creates a group of one participant and returns its handle, which is
    /// live.
    pub fn new() -> (r: Self)
        ensures
            r.is_live(),
    {
        Rendezvous {
            shared: Arc::new(Shared { live: AtomicU32::new(1), pending: AtomicU32::new(1) }),
            armed: true,
        }
    }

    /// Registers one more participant in the group and returns its handle.
    ///
    /// The participant is entered in `pending` first and in `live` second, so
    /// that at no instant it counts as able to leave without counting as
    /// holding the shared state. Where `pending` is at its ceiling the group
    /// is left as it is and the call fails; `self` stays usable either way.
    pub fn duplicate(&self) -> (r: Result<Rendezvous, CapacityExceeded>)
        ensures
            r matches Ok(h) ==> h.is_live() && h.group() == self.group(),
    {
        let found = fetch_enroll(&self.shared.pending);
        let prev: u32 = match found {
            Ok(prev) => prev,
            Err(prev) => prev,
        };
        let r = self.join(prev);
        // The counter was raised exactly where the value found leaves room.
        assert(r is Ok <==> found is Ok);
        r
    }

    /// Begins to wait: takes the handle off `live`, wakes the waiters where it
    /// was the last live handle, and returns the waiter that stands for it
    /// from now on.
    ///
    /// The waiter is released at once where the handle was the last live one.
    /// Otherwise the caller parks it until it is.
    #[must_use]
    pub fn wait(self) -> (w: Waiter)
        ensures
            w.group() == self.group(),
            !w.is_settled(),
    {
        let seen: u32 = leave(&self.shared).reading();
        let shared = share(&self.shared);
        let mut this = self;
        this.armed = false;
        Waiter { shared, seen, settled: false }
    }

    /// Leaves the group without waiting for anybody, as dropping the handle
    /// does. Returns whether this was the departure that emptied `pending`,
    /// the last one of the group to complete. The result is a report and
    /// nothing else: the memory of the shared state is returned by the
    /// reference-counted pointer.
    pub fn abandon(self) -> (last: bool) {
        leave(&self.shared);
        let last = settle(&self.shared);
        let mut this = self;
        this.armed = false;
        last
    }

    /// Reads the two counters of the group.
    pub fn snapshot(&self) -> (s: Snapshot) {
        read(&self.shared)
    }

    /// The second half of a duplication, for the duplication that found
    /// `prev` in `pending`. Where `prev` left room, `pending` has been raised:
    /// `live` is raised too, and the new participant gets its handle. Where it
    /// left none, nothing was raised and nothing is, and the duplication
    /// fails.
    fn join(&self, prev: u32) -> (r: Result<Rendezvous, CapacityExceeded>)
        ensures
            r is Ok <==> prev < CAPACITY,
            r matches Ok(h) ==> h.is_live() && h.group() == self.group(),
    {
        match try_enroll(prev) {
            Ok(_) => {
                self.shared.live.fetch_add(1, Ordering::AcqRel);
                Ok(Rendezvous { shared: share(&self.shared), armed: true })
            },
            Err(full) => Err(full),
        }
    }
}

impl Default for Rendezvous {
    fn default() -> (r: Self)
        ensures
            r.is_live(),
    {
        Rendezvous::new()
    }
}

impl Drop for Rendezvous {
    /// Abandons the handle where it is still live: takes it off `live`, wakes
    /// the waiters where it was the last live handle, and takes it off
    /// `pending`. It never blocks.
    fn drop(&mut self)
        ensures
            !final(self).is_live(),
            final(self).group() == old(self).group(),
        opens_invariants none
        no_unwind
    {
        if self.armed {
            leave(&self.shared);
            settle(&self.shared);
            self.armed = false;
        }
    }
}

impl Waiter {
    /// The shared state of the group that the waiter belongs to.
    pub closed spec fn group(&self) -> Shared {
        *self.shared
    }

    /// The latest reading of `live` that the waiter has taken.
    pub closed spec fn reading(&self) -> u32 {
        self.seen
    }

    /// Whether the waiter has been taken off `pending`. No waiter that a
    /// caller holds has: the call that settles a waiter consumes it.
    pub closed spec fn is_settled(&self) -> bool {
        self.settled
    }

    /// The latest reading of `live` that the waiter has taken.
    pub fn observed(&self) -> (l: u32)
        ensures
            l == self.reading(),
    {
        self.seen
    }

    /// Whether the waiter has seen `live` at zero: every participant of the
    /// group has begun to leave, and the wait is over.
    pub fn is_released(&self) -> (b: bool)
        ensures
            b == (self.reading() == 0),
    {
        self.seen == 0
    }

    /// One round of waiting. A released waiter returns at once and stays
    /// released. Any other blocks for as long as `live` holds the value that
    /// the waiter read last and no wake-up arrives, and then reads `live`
    /// again.
    pub fn park(&mut self)
        ensures
            final(self).group() == old(self).group(),
            final(self).is_settled() == old(self).is_settled(),
            old(self).reading() == 0 ==> final(self).reading() == 0,
    {
        if self.seen > 0 {
            atomic_wait::wait(&self.shared.live, self.seen);
            let live: u32 = self.shared.live.load(Ordering::Acquire);
            self.observe(live);
        }
    }

    /// Completes the departure of a released waiter: takes it off `pending`.
    /// Returns whether this was the departure that emptied `pending`, the
    /// last one of the group to complete. The result is a report and nothing
    /// else: the memory of the shared state is returned by the
    /// reference-counted pointer.
    pub fn finish(self) -> (last: bool)
        requires
            self.reading() == 0,
    {
        let last = settle(&self.shared);
        let mut this = self;
        this.settled = true;
        last
    }

    /// Reads the two counters of the group.
    pub fn snapshot(&self) -> (s: Snapshot) {
        read(&self.shared)
    }

    /// Takes note of `live`, a value that was just read from the counter. A
    /// waiter that has once seen zero stays released whatever is read later:
    /// zero is final.
    fn observe(&mut self, live: u32)
        ensures
            final(self).group() == old(self).group(),
            final(self).is_settled() == old(self).is_settled(),
            final(self).reading() == (if old(self).reading() == 0 {
                0
            } else {
                live
            }),
    {
        if self.seen != 0 {
            self.seen = live;
        }
    }
}

impl Drop for Waiter {
    /// Takes the waiter off `pending` where it still stands on it, released
    /// or not. It never blocks.
    fn drop(&mut self)
        ensures
            final(self).is_settled(),
            final(self).group() == old(self).group(),
            final(self).reading() == old(self).reading(),
        opens_invariants none
        no_unwind
    {
        if !self.settled {
            settle(&self.shared);
            self.settled = true;
        }
    }
}

} // verus!
