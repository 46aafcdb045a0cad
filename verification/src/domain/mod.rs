//! The domain of the service: seatings, votings and how parties voted.

pub mod data;
pub mod favourites;
pub mod game;
pub mod helper;
pub mod random_n_game;

pub use crate::domain::data::{Party, PartyVote, Vote, VotingResult};
pub use crate::fetching::data::Url;

use vstd::prelude::*;
use crate::domain::data::Date;

verus! {

/// A seating as found in the list of seatings, with the address of its votings
/// and, once loaded, the votings.
#[derive(Debug)]
pub struct Seating {
    pub link: Url,
    pub date: Date,
    pub number: u32,
    pub votings: Option<Vec<Voting>>,
}

impl Seating {
    /// A seating whose votings are not loaded yet.
    pub fn new(link: Url, date: Date, number: u32) -> (s: Seating)
        ensures
            s.link == link,
            s.date == date,
            s.number == number,
            s.votings is None,
    {
        Seating { link, date, number, votings: None }
    }
}

/// The seatings of the list of seatings.
#[derive(Debug)]
pub struct SeatingList {
    pub seatings: Vec<Seating>,
}

impl SeatingList {
    pub fn new(seatings: Vec<Seating>) -> (l: SeatingList)
        ensures
            l.seatings == seatings,
    {
        SeatingList { seatings }
    }
}

/// A voting as found in the table of a seating, with the address of its outcome
/// and, once loaded, the outcome.
#[derive(Debug)]
pub struct Voting {
    pub link: Url,
    pub number: u32,
    pub description: String,
    pub voting_results: Option<VotingResult>,
}

impl Voting {
    /// A voting whose outcome is not loaded yet.
    pub fn new(link: Url, number: u32, description: String) -> (v: Voting)
        ensures
            v.link == link,
            v.number == number,
            v.description == description,
            v.voting_results is None,
    {
        Voting { link, number, description, voting_results: None }
    }
}

} // verus!
