//! Configuration: its layers, its keys, its settings.

pub mod bounds;
pub mod checks;
pub mod keys;
pub mod laws;
pub mod overrides;
pub mod routes;
pub mod settings;
pub mod trees;
