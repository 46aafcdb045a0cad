//! The rules of the game: each answer is tallied, and the answer to the last
//! question ends the game with the parties voted alike most often.

use vstd::prelude::*;
use crate::domain::data::{PartyVote, Vote, party_votes_view};
use crate::domain::favourites::{Round, Tally, fits_in_tally, resolve_spec, tally_after, winners_spec};
use crate::domain::random_n_game::data::GameState;

verus! {

/// The state after the answer `vote` to a voting whose outcome was `pvs`, and what
/// the call returns: `Some(winners)` when the game is over.
pub open spec fn player_chose_spec(s: (u8, u8, Tally), vote: Vote, pvs: Seq<(Seq<char>, Vote)>) -> (
    (u8, u8, Tally),
    Option<Seq<Seq<char>>>,
) {
    let (limit, asked, t) = s;
    if limit > asked {
        let t2 = resolve_spec(t, vote, pvs);
        let asked2 = (asked + 1) as u8;
        ((limit, asked2, t2), if asked2 == limit {
            Some(winners_spec(t2))
        } else {
            None
        })
    } else {
        (s, Some(winners_spec(t)))
    }
}

/// The state after the rounds of `rounds` were answered in order, and what the last
/// answer returned (`None` before any answer).
pub open spec fn engine_play_spec(s: (u8, u8, Tally), rounds: Seq<(Vote, Seq<(Seq<char>, Vote)>)>) -> (
    (u8, u8, Tally),
    Option<Seq<Seq<char>>>,
)
    decreases rounds.len(),
{
    if rounds.len() == 0 {
        (s, None)
    } else {
        player_chose_spec(engine_play_spec(s, rounds.drop_last()).0, rounds.last().0, rounds.last().1)
    }
}

/// Starts a game of `limit` questions.
pub fn begin(limit: u8) -> (g: GameState)
    ensures
        g@ == (limit, 0u8, Seq::<(Seq<char>, u8)>::empty()),
        g.wf(),
{
    GameState::new(limit)
}

/// Records the player's answer `vote` to a voting whose outcome was `parties_votes`.
/// Returns the favourite parties once the last question is answered (and on every
/// call after that), `None` while questions remain.
pub fn player_chose(game_state: &mut GameState, vote: &Vote, parties_votes: &Vec<PartyVote>) -> (r:
    Option<Vec<String>>)
    requires
        old(game_state).wf(),
        old(game_state).limit > old(game_state).asked_so_far ==> fits_in_tally(
            old(game_state).favourites@,
            *vote,
            party_votes_view(parties_votes@),
        ),
    ensures
        final(game_state).wf(),
        ({
            let (s, out) = player_chose_spec(old(game_state)@, *vote, party_votes_view(parties_votes@));
            &&& final(game_state)@ == s
            &&& match r {
                Some(w) => out == Some(w@.map_values(|x: String| x@)),
                None => out is None,
            }
        }),
{
    if game_state.limit > game_state.asked_so_far {
        game_state.favourites.resolve_favourites(vote, parties_votes);
        game_state.asked_so_far = game_state.asked_so_far + 1;
        if game_state.asked_so_far == game_state.limit {
            Some(game_state.favourites.find_winners())
        } else {
            None
        }
    } else {
        Some(game_state.favourites.find_winners())
    }
}

/// In a game of `limit` questions, each of the first `limit - 1` answers returns
/// `None` and leaves as many questions counted as were answered, with the tally of
/// those rounds; the `limit`-th answer returns the parties with the largest count
/// in the tally of all rounds (see `lemma_favourites_voted_most_alike`).
pub proof fn lemma_engine_ends_after_limit(limit: u8, rounds: Seq<Round>)
    requires
        0 < limit,
        0 < rounds.len() <= limit,
    ensures
        ({
            let (s, out) = engine_play_spec((limit, 0u8, Seq::empty()), rounds);
            &&& s == (limit, rounds.len() as u8, tally_after(rounds))
            &&& rounds.len() < limit ==> out is None
            &&& rounds.len() == limit ==> out == Some(winners_spec(tally_after(rounds)))
        }),
    decreases rounds.len(),
{
    let s0: (u8, u8, Tally) = (limit, 0u8, Seq::empty());
    if rounds.len() > 1 {
        lemma_engine_ends_after_limit(limit, rounds.drop_last());
    } else {
        assert(engine_play_spec(s0, rounds.drop_last()).0 == s0);
        assert(tally_after(rounds.drop_last()) == Seq::<(Seq<char>, u8)>::empty());
    }
}

} // verus!
