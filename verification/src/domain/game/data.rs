//! The state of a game whose state is passed by value.

use vstd::prelude::*;
use crate::domain::favourites::{Favourites, Tally};

verus! {

/// Either still asking, with the number of questions, how many were answered and
/// the tally so far; or finished, with the favourite parties.
#[derive(Debug)]
pub enum RandomNGameState {
    Asking { limit: u8, asked_so_far: u8, favourites: Favourites },
    Result(Vec<String>),
}

/// The value of a `RandomNGameState`.
pub enum RandomNView {
    Asking { limit: u8, asked_so_far: u8, favourites: Tally },
    Result(Seq<Seq<char>>),
}

impl View for RandomNGameState {
    type V = RandomNView;

    open spec fn view(&self) -> RandomNView {
        match self {
            RandomNGameState::Asking { limit, asked_so_far, favourites } => RandomNView::Asking {
                limit: *limit,
                asked_so_far: *asked_so_far,
                favourites: favourites@,
            },
            RandomNGameState::Result(r) => RandomNView::Result(r@.map_values(|s: String| s@)),
        }
    }
}

impl RandomNGameState {
    /// A tally in an asking state has no party twice.
    pub open spec fn wf(&self) -> bool {
        match self {
            RandomNGameState::Asking { favourites, .. } => favourites.wf(),
            RandomNGameState::Result(_) => true,
        }
    }
}

/// A voting as the game presents it to the player.
#[derive(Debug)]
pub struct VotingResponse {
    pub description: String,
    pub id: i32,
}

} // verus!
