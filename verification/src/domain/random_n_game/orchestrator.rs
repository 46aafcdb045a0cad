//! The decisions of a game session; the session itself fetches the votings and
//! their outcomes from the database between them.

use vstd::prelude::*;
use crate::db::data::DbVotingHeader;
use crate::domain::data::{PartyVote, Vote, party_votes_view, vote_from_num_spec};
use crate::domain::favourites::fits_in_tally;
use crate::domain::random_n_game::data::{GameResponse, GameState};
use crate::domain::random_n_game::engine::{player_chose, player_chose_spec};

verus! {

/// What the player is shown next when the game goes on with `voting`.
pub fn play_response(voting: DbVotingHeader) -> (r: GameResponse)
    ensures
        r == (GameResponse::Play {
            voting_description: voting.header.description,
            voting_id: voting.id,
        }),
{
    GameResponse::Play { voting_description: voting.header.description, voting_id: voting.id }
}

/// Records the player's answer, given as its number `vote` (0 for, 1 against, 2
/// held), to a voting whose outcome was `voting_result`. Returns the final answer
/// with the favourite parties when the game is over, and `None` when the session
/// is to go on with another voting.
pub fn answer_choice(game_state: &mut GameState, vote: i32, voting_result: &Vec<PartyVote>) -> (r:
    Option<GameResponse>)
    requires
        0 <= vote <= 2,
        old(game_state).wf(),
        old(game_state).limit > old(game_state).asked_so_far ==> fits_in_tally(
            old(game_state).favourites@,
            vote_from_num_spec(vote as int),
            party_votes_view(voting_result@),
        ),
    ensures
        final(game_state).wf(),
        ({
            let (s, out) = player_chose_spec(
                old(game_state)@,
                vote_from_num_spec(vote as int),
                party_votes_view(voting_result@),
            );
            &&& final(game_state)@ == s
            &&& match r {
                Some(resp) => out matches Some(w) && resp matches GameResponse::Result {
                    favourite_parties,
                } && favourite_parties@.map_values(|x: String| x@) == w,
                None => out is None,
            }
        }),
{
    let v = Vote::from_num(vote as i64);
    match player_chose(game_state, &v, voting_result) {
        Some(favourite_parties) => Some(GameResponse::Result { favourite_parties }),
        None => None,
    }
}

} // verus!
