//! Lifecycle core of a long-running background service: single-instance
//! enforcement, the command and event paths between clients and the state
//! owner, shutdown coordination and the startup sequence.
//!
//! Every type here is a sequential state machine over plain values. The
//! program around it performs the operating-system work, feeds the results in
//! as events and carries out the actions that come back.

pub mod broadcast;
pub mod channel;
pub mod core_loop;
pub mod error;
pub mod lifecycle;
pub mod platform;
pub mod privilege;
mod registry;
pub mod server;
pub mod shutdown;
pub mod uniqueness;
