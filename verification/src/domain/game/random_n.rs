//! A game of `limit` questions: after each voting the player says how they would
//! have voted; the parties that voted alike most often win.

use vstd::prelude::*;
use crate::domain::data::{PartyVote, Vote, party_votes_view};
use crate::domain::favourites::{
    Favourites, Round, Tally, fits_in_tally, resolve_spec, tally_after, winners_spec,
};
use crate::domain::game::data::{RandomNGameState, RandomNView};

verus! {

/// The state of a game of `limit` questions before the first answer.
pub open spec fn begin_spec(limit: u8) -> RandomNView {
    RandomNView::Asking { limit, asked_so_far: 0, favourites: Seq::empty() }
}

/// The state after one more answered question with tally `favourites`: finished
/// with the winners when that was the last question, else still asking.
pub open spec fn step_spec(limit: u8, asked_so_far: u8, favourites: Tally) -> RandomNView {
    let asked = (asked_so_far + 1) as u8;
    if limit == asked {
        RandomNView::Result(winners_spec(favourites))
    } else {
        RandomNView::Asking { limit, asked_so_far: asked, favourites }
    }
}

/// The state after the player answered `vote` to a voting whose outcome was `pvs`.
pub open spec fn chose_spec(s: RandomNView, vote: Vote, pvs: Seq<(Seq<char>, Vote)>) -> RandomNView {
    match s {
        RandomNView::Asking { limit, asked_so_far, favourites } => step_spec(
            limit,
            asked_so_far,
            resolve_spec(favourites, vote, pvs),
        ),
        RandomNView::Result(r) => RandomNView::Result(r),
    }
}

/// The state after the rounds of `rounds` were answered in order.
pub open spec fn play_spec(s: RandomNView, rounds: Seq<(Vote, Seq<(Seq<char>, Vote)>)>) -> RandomNView
    decreases rounds.len(),
{
    if rounds.len() == 0 {
        s
    } else {
        chose_spec(play_spec(s, rounds.drop_last()), rounds.last().0, rounds.last().1)
    }
}

/// Starts a game of `limit` questions.
pub fn begin(limit: u8) -> (s: RandomNGameState)
    ensures
        s@ == begin_spec(limit),
        s.wf(),
{
    RandomNGameState::Asking { limit, asked_so_far: 0, favourites: Favourites::new() }
}

/// Records the player's answer `vote` to a voting whose outcome was `parties_votes`.
/// A finished game stays as it is.
pub fn chose(game_state: RandomNGameState, vote: &Vote, parties_votes: &Vec<PartyVote>) -> (s:
    RandomNGameState)
    requires
        game_state.wf(),
        game_state matches RandomNGameState::Asking { asked_so_far, favourites, .. } ==> {
            &&& asked_so_far < 255
            &&& fits_in_tally(favourites@, *vote, party_votes_view(parties_votes@))
        },
    ensures
        s@ == chose_spec(game_state@, *vote, party_votes_view(parties_votes@)),
        s.wf(),
{
    match game_state {
        RandomNGameState::Asking { limit, asked_so_far, mut favourites } => {
            favourites.resolve_favourites(vote, parties_votes);
            increment_step_and_return(limit, asked_so_far, favourites)
        },
        RandomNGameState::Result(r) => RandomNGameState::Result(r),
    }
}

fn increment_step_and_return(limit: u8, asked_so_far: u8, favourites: Favourites) -> (s:
    RandomNGameState)
    requires
        asked_so_far < 255,
        favourites.wf(),
    ensures
        s@ == step_spec(limit, asked_so_far, favourites@),
        s.wf(),
{
    let asked_so_far = asked_so_far + 1;
    if limit == asked_so_far {
        let winners = favourites.find_winners();
        RandomNGameState::Result(winners)
    } else {
        RandomNGameState::Asking { limit, asked_so_far, favourites }
    }
}

/// A game of `limit` questions is still asking after fewer than `limit` answers,
/// with as many questions counted as were answered and the tally of those rounds,
/// and is finished right after the `limit`-th answer, with the parties with the
/// largest count in the tally of all rounds (see `lemma_favourites_voted_most_alike`).
pub proof fn lemma_game_ends_after_limit(limit: u8, rounds: Seq<Round>)
    requires
        0 < limit,
        rounds.len() <= limit,
    ensures
        rounds.len() < limit ==> play_spec(begin_spec(limit), rounds) == (RandomNView::Asking {
            limit,
            asked_so_far: rounds.len() as u8,
            favourites: tally_after(rounds),
        }),
        rounds.len() == limit ==> play_spec(begin_spec(limit), rounds) == RandomNView::Result(
            winners_spec(tally_after(rounds)),
        ),
    decreases rounds.len(),
{
    if rounds.len() > 0 {
        lemma_game_ends_after_limit(limit, rounds.drop_last());
    }
}

/// Once finished, a game stays finished with the same winners, whatever is answered.
pub proof fn lemma_finished_game_stays(winners: Seq<Seq<char>>, rounds: Seq<(Vote, Seq<(Seq<char>, Vote)>)>)
    ensures
        play_spec(RandomNView::Result(winners), rounds) == RandomNView::Result(winners),
    decreases rounds.len(),
{
    if rounds.len() > 0 {
        lemma_finished_game_stays(winners, rounds.drop_last());
    }
}

} // verus!
