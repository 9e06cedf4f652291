//! Watches runs and asks for confirmations.

pub mod feeds;
pub mod keys;
pub mod laws;
pub mod panes;
pub mod state;
