//! The model broker: routes, budgets, the cache, the providers' requests and answers.

pub mod answers;
pub mod bodies;
pub mod cache;
pub mod calls;
pub mod desk;
pub mod laws;
pub mod setup;
pub mod types;
