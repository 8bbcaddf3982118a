//! A rendezvous: a one-shot meeting point for a group of threads whose size is
//! not known in advance.
//!
//! A group starts with one [`Rendezvous`] handle. Every further participant is
//! registered by duplicating a handle that is still live. A handle leaves the
//! group either by waiting for everybody else or by simply being dropped; both
//! departures are counted, and the last one releases whoever is still waiting.
//!
//! The crate is laid out in five parts:
//!
//! * [`counters`]: the decisions taken on a value that was read from one of the
//!   two shared counters;
//! * [`engine`]: the few operations on shared memory and the block/wake
//!   primitive, whose contracts are taken on trust;
//! * [`handle`]: the handles themselves;
//! * [`protocol`]: a model of a whole group as a transition system, with the
//!   invariant that every step of every participant keeps;
//! * [`laws`]: what the invariant means for the users of a group.

pub mod counters;
pub mod engine;
pub mod handle;
pub mod laws;
pub mod protocol;

pub use counters::CapacityExceeded;
pub use counters::Departure;
pub use handle::Rendezvous;
pub use handle::Snapshot;
pub use handle::Waiter;
