//! A bounded multi-producer multi-consumer channel core.
//!
//! The channel is a backpressure-aware FIFO queue of fixed positive
//! capacity shared by any number of sender and receiver handles. Sends on
//! a full queue and receives on an empty one do not fail: the caller is
//! registered as a pending request and suspends until another operation
//! frees a slot, supplies an item, or closes the channel. Closing is
//! idempotent and irreversible; items queued before closing are still
//! drained, and only then do receivers observe `Closed`.
//!
//! This crate verifies the shared state and its transition protocol: every
//! operation is a function from the current state to the next state plus
//! the actions to perform (complete, suspend, or wake a named waiter).
//! The executor that runs tasks concurrently is outside the channel; it
//! drives these transitions, performs the wakeups they request, and holds
//! the state behind a lock so that transitions are serialized.

pub mod channel;
pub mod laws;
