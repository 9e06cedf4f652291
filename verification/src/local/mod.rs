//! Runs the nodes of an opening on this machine.

pub mod calls;
pub mod jobs;
pub mod laws;
pub mod trees;
pub mod watch;
