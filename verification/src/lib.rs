//! Anonymity-preserving message relay core: stem/fluff propagation with
//! proof-of-work gated fluff injection, a first-write-wins relay directory,
//! and a persisted fluff queue drained on a jittered schedule.

pub mod codec;
pub mod config;
pub mod error;
pub mod fluff;
pub mod i2p;
pub mod message;
pub mod network;
pub mod pow;
pub mod relay;
mod rng;
pub mod router;
pub mod strings;

use vstd::prelude::*;

verus! {

/// Millisecond range for the randomized event-loop tick, and the fixed
/// network constant mixed into every proof-of-work hash input.
pub const NETWORK_FLUFF: u64 = 32;

/// Upper bound of the proof-of-work search space.
pub const POW_LIMIT: u64 = 123456789;

} // verus!
