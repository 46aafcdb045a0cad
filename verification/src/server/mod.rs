//! What the HTTP endpoints compute from their path parameters.

pub mod services;
