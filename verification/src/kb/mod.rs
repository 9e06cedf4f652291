//! The knowledge base: what enters the ledger, what the views show of it.

pub mod finds;
pub mod hits;
pub mod keys;
pub mod laws;
pub mod ledger;
pub mod traces;
pub mod views;
