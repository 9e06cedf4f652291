//! Verified core of the Runloop agent runtime.

pub mod agents;
pub mod armor;
pub mod broker;
pub mod bus;
pub mod config;
pub mod content;
pub mod control;
pub mod crew;
pub mod digest;
pub mod error;
pub mod grounds;
pub mod guests;
pub mod ids;
pub mod json;
pub mod kb;
pub mod local;
pub mod monitor;
pub mod openings;
pub mod paths;
pub mod prose;
pub mod registry;
pub mod shelf;
pub mod text;
pub mod yaml;
