//! Connection supervision and state reconciliation engine for a desktop
//! monitor of tracing-instrumented processes.
//!
//! The crate tracks a registry of target applications, models the per-target
//! streaming-connection lifecycle as a state machine, reconciles incoming task
//! lifecycle updates into an in-memory task table, and mirrors every mutation
//! of the registry into a persisted snapshot handed to the caller for
//! write-through.

pub mod application;
pub mod connection;
pub mod connection_manager;
pub mod error;
pub mod mappers;
pub mod state;
pub mod state_manager;
pub mod store;
pub mod task;
pub mod wire;

pub use error::Error;
