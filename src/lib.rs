//! Liveness tracking for federated social-network servers: the per-instance
//! lifecycle state machine, the scheduling store, the time policy, the probe
//! output protocol and the orchestrator's pacing decisions.

pub mod checker;
mod index;
pub mod machine;
pub mod nodeinfo;
pub mod pacing;
pub mod probe;
mod queue;
pub mod retry;
pub mod schedule;
pub mod state;
pub mod store;

pub use machine::{Lifecycle, SideData, Transition, Verdict};
pub use state::{Cadence, InstanceState};
