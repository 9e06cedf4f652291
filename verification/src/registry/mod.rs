//! Where agents and openings are found, and what their manifests say.

pub mod dirs;
pub mod discovery;
pub mod laws;
pub mod manifests;
pub mod schema;
pub mod tools;
