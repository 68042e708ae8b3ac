//! Receive-side fan-out for a real-time voice engine.
//!
//! An external media engine delivers one aggregated event per fixed 20 ms
//! interval (a "tick"), plus speaking-state changes and disconnect notices.
//! This library resolves transient source identifiers (SSRCs) to stable
//! participant identities, folds each raw tick into an immutable identity-keyed
//! snapshot, and redistributes snapshots to consumers under two policies:
//! a bounded retained buffer (`BufferSink`) and a permit-gated broadcast
//! (`StreamSink`).
//!
//! The asynchronous plumbing (locks, wake-ups, the engine itself) lives
//! outside this crate; everything here is a value-level state machine with
//! verified contracts.

use vstd::prelude::*;

pub mod buffer_sink;
pub mod events;
pub mod key;
pub mod player_input;
pub mod raw;
pub mod resolver;
pub mod stream_sink;
pub mod tick;

verus! {

/// Fixed delivery cadence of the external engine: one tick every 20 ms.
/// Retention windows given in seconds are converted to tick counts with this.
pub const TICKS_PER_SECOND: usize = 50;

} // verus!
