//! Safe, verified core of a wrapper around an embeddable JavaScript engine.
//!
//! The library manages the engine's three-tier resource hierarchy
//! (runtime -> context -> value) and turns the engine's native
//! evaluation-and-exception protocol into a typed result. Every native
//! handle is carried as a plain integer; the process that actually calls
//! into the engine performs the allocations and frees and feeds the
//! results to the decision functions here.

pub mod context;
pub mod encoding;
pub mod jsval;
pub mod ledger;
pub mod runtime;
pub mod value;
