//! A game of a fixed number of questions whose state is passed by value.

pub mod data;
pub mod random_n;
