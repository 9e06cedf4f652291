//! The message bus.

pub mod dedupe;
pub mod ipc;
pub mod laws;
pub mod message;
pub mod server;
