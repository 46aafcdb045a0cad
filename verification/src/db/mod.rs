//! What the service computes for the database: statements, parameters, choices.

pub mod command;
pub mod data;
pub mod provider;
pub mod query;
