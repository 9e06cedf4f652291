//! The agents that write and send a mail together.

pub mod common;
pub mod critic;
pub mod gatherer;
pub mod laws;
pub mod mailer;
pub mod resolver;
pub mod writer;
