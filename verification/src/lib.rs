//! An in-process RPC fabric for stress-testing distributed algorithms.
//!
//! Client endpoints issue requests that travel through a simulated network
//! which may drop, delay or reorder them according to configurable policy
//! flags.  The decision logic of the fabric -- which requests survive, how
//! long they wait, and what the caller sees -- is verified; timers, thread
//! pools and channels live outside the library and only carry the decisions
//! out.

use vstd::prelude::*;

pub mod codec;
pub mod errors;
mod network;
pub mod raft;
mod rng;
mod server;
mod table;

pub use errors::Error;
pub use network::{
    call_outcome_ok, dispatched_to, lemma_enable_idempotent, lemma_plan_delays_bounded, lemma_rebind_exceeds,
    lemma_stale_capture_is_dead, live_capture, plan_from_draws, plan_ok, spec_plan, spec_verdict,
    unchanged_but_long_delays, unchanged_but_long_reordering, unchanged_but_reliable, ClientEnd,
    EndInfo, Network, OutcomeDraws, ProcessState, ReplyAction, Rpc,
};
pub use server::{captures, Handler, Server, ServerBuilder};

verus! {

} // verus!
