//! The agents that run as guests of the runtime, and what they use of their host.

pub mod blocks;
pub mod context;
pub mod critic;
pub mod helper;
pub mod host;
pub mod laws;
pub mod mailer;
pub mod resolver;
pub mod shell;
pub mod tmux;
pub mod writer;
