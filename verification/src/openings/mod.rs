//! Openings: the workflow language, its graph, its runs and their replay.

pub mod document;
pub mod graph;
pub mod laws;
pub mod literal;
pub mod locate;
pub mod model;
pub mod nodes;
pub mod parser;
pub mod ports;
pub mod predicates;
pub mod reading;
pub mod records;
pub mod replay;
pub mod runner;
pub mod telling;
pub mod templates;
pub mod values;
