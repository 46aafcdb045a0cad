//! Reading the parliament's pages: the list of seatings, the votings of a seating
//! and the outcome of a voting.

pub mod data;
pub mod document_parsing;
pub mod html;
pub mod loading;
pub mod tools;
