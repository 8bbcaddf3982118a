//! Decisions on a value read from a shared counter.
//!
//! A group keeps two counters. `live` counts the handles that have not begun to
//! leave; `pending` counts the handles whose departure is not complete yet.
//! Every operation of a handle is one atomic read-modify-write followed by a
//! decision on the value that was read. The decisions are collected here as
//! plain functions, so that each of them is stated and proved for every value
//! that the counter can hold.

use vstd::prelude::*;

verus! {

/// The largest number of participants that one group can register.
pub const CAPACITY: u32 = 0xFFFF_FFFF;

/// A duplication was refused because the group already holds [`CAPACITY`]
/// participants.
#[derive(Debug, Clone, Copy, PartialEq, Eq, Structural)]
pub struct CapacityExceeded;

/// What a handle learns when it takes itself off the `live` counter.
#[derive(Debug, Clone, Copy, PartialEq, Eq, Structural)]
pub enum Departure {
    /// The handle was the last live one: it owes the waiters a wake-up.
    Last,
    /// Other handles are still live; the field is their number.
    Remaining(u32),
}

impl Departure {
    /// The number of handles that were still live when this one left.
    pub open spec fn left(self) -> u32 {
        match self {
            Departure::Last => 0,
            Departure::Remaining(l) => l,
        }
    }

    /// The number of handles that were still live when this one left: the
    /// first reading that a waiter goes by.
    pub fn reading(self) -> (l: u32)
        ensures
            l == self.left(),
        opens_invariants none
        no_unwind
    {
        match self {
            Departure::Last => 0,
            Departure::Remaining(l) => l,
        }
    }
}

/// The value of `pending` once one more participant is registered, or `None`
/// where the counter is already at its ceiling.
pub open spec fn enrolled(pending: u32) -> Option<u32> {
    if pending < CAPACITY {
        Some((pending + 1) as u32)
    } else {
        None
    }
}

/// The value that a counter holds after a decrement that found `prev` in it.
/// A counter that was already empty wraps around; no handle of a well-formed
/// group ever meets that case.
pub open spec fn left_after(prev: u32) -> u32 {
    if prev == 0 {
        CAPACITY
    } else {
        (prev - 1) as u32
    }
}

/// What the handle that found `prev` in `live` learns from it.
pub open spec fn departure_of(prev: u32) -> Departure {
    if prev == 1 {
        Departure::Last
    } else {
        Departure::Remaining(left_after(prev))
    }
}

/// Whether the decrement that found `prev` in `pending` was the one that
/// emptied it, so that the shared state can be released.
pub open spec fn releases(prev: u32) -> bool {
    prev == 1
}

/// Registers one more participant on a `pending` counter that holds `pending`:
/// the new value, unless the ceiling is reached.
pub fn enroll(pending: u32) -> (next: Option<u32>)
    ensures
        next == enrolled(pending),
{
    pending.checked_add(1)
}

/// The same decision as [`enroll`], reported as the error that the caller of a
/// duplication sees.
pub fn try_enroll(pending: u32) -> (next: Result<u32, CapacityExceeded>)
    ensures
        next is Ok <==> pending < CAPACITY,
        next matches Ok(n) ==> n == pending + 1,
        next is Err <==> pending == CAPACITY,
{
    match enroll(pending) {
        Some(n) => Ok(n),
        None => Err(CapacityExceeded),
    }
}

/// Interprets the value that a decrement of `live` found.
pub fn depart(prev: u32) -> (d: Departure)
    ensures
        d == departure_of(prev),
    opens_invariants none
    no_unwind
{
    if prev == 1 {
        Departure::Last
    } else if prev == 0 {
        Departure::Remaining(CAPACITY)
    } else {
        Departure::Remaining(prev - 1)
    }
}

/// Interprets the value that a decrement of `pending` found.
pub fn settles(prev: u32) -> (last: bool)
    ensures
        last == releases(prev),
    opens_invariants none
    no_unwind
{
    prev == 1
}

} // verus!
