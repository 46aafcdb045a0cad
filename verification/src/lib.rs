//! Verified core of a service that collects the votings of the Polish parliament
//! and plays a "which party do you vote like" game with them.

pub mod db;
pub mod domain;
pub mod error;
pub mod fetching;
pub mod filling;
pub mod keyed;
pub mod server;
pub mod text;
