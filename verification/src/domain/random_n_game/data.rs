//! The state, the requests and the answers of the game.

use vstd::prelude::*;
use crate::domain::favourites::{Favourites, Tally};

verus! {

/// A game of `limit` questions of which `asked_so_far` are answered, with the tally.
#[derive(Debug)]
pub struct GameState {
    pub limit: u8,
    pub asked_so_far: u8,
    pub favourites: Favourites,
}

impl View for GameState {
    type V = (u8, u8, Tally);

    open spec fn view(&self) -> (u8, u8, Tally) {
        (self.limit, self.asked_so_far, self.favourites@)
    }
}

impl GameState {
    /// The tally has no party twice.
    pub open spec fn wf(&self) -> bool {
        self.favourites.wf()
    }

    /// A game of `limit` questions, none answered yet.
    pub fn new(limit: u8) -> (g: GameState)
        ensures
            g@ == (limit, 0u8, Seq::<(Seq<char>, u8)>::empty()),
            g.wf(),
    {
        GameState { limit, asked_so_far: 0, favourites: Favourites::new() }
    }
}

impl Default for GameState {
    /// A game of no questions.
    fn default() -> (g: GameState)
        ensures
            g@ == (0u8, 0u8, Seq::<(Seq<char>, u8)>::empty()),
            g.wf(),
    {
        GameState::new(0)
    }
}

/// What the player is shown: the next voting, or the favourite parties at the end.
#[derive(Debug)]
pub enum GameResponse {
    Play { voting_description: String, voting_id: i32 },
    Result { favourite_parties: Vec<String> },
}

/// The player's answer `vote` (0 for, 1 against, 2 held) to the voting `voting_id`.
#[derive(Debug)]
pub struct PlayRequest {
    pub vote: i32,
    pub voting_id: i32,
}

impl PlayRequest {
    pub fn new(vote: i32, voting_id: i32) -> (r: PlayRequest)
        ensures
            r.vote == vote,
            r.voting_id == voting_id,
    {
        PlayRequest { vote, voting_id }
    }
}

} // verus!
