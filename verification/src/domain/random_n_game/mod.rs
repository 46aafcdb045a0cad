//! A game of a fixed number of questions whose state is kept in place.

pub mod data;
pub mod engine;
pub mod orchestrator;
