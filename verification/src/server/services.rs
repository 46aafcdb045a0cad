//! Reading the path parameters of the game endpoints.

use vstd::prelude::*;
use crate::domain::random_n_game::data::PlayRequest;
use crate::error::PopisError;
use crate::text::{chars_of, parse_i32, parse_i32_spec, parse_u8, parse_u8_spec};

verus! {

/// The message for a path parameter `name` whose value `value` is not a number.
pub open spec fn not_a_number_message(name: Seq<char>, value: Seq<char>) -> Seq<char> {
    "Couldn't parse "@ + name + ": "@ + value + " into a number"@
}

fn not_a_number(name: &str, value: &str) -> (e: PopisError)
    ensures
        e matches PopisError::GameplayError(m) && m@ == not_a_number_message(name@, value@),
{
    let mut m = String::from_str("Couldn't parse ");
    m.append(name);
    m.append(": ");
    m.append(value);
    m.append(" into a number");
    PopisError::GameplayError(m)
}

/// The number of questions of a new game, from the path parameter `n`.
pub fn parse_game_limit(n: &str) -> (r: Result<u8, PopisError>)
    ensures
        match parse_u8_spec(n@) {
            Some(limit) => r == Ok::<u8, PopisError>(limit),
            None => r matches Err(PopisError::GameplayError(m)) && m@ == not_a_number_message(
                "n"@,
                n@,
            ),
        },
{
    let chars = chars_of(n);
    match parse_u8(chars.as_slice()) {
        Some(limit) => Ok(limit),
        None => Err(not_a_number("n", n)),
    }
}

/// The player's answer from the path parameters `n` (the vote) and `id` (the voting).
pub fn parse_play_request(n: &str, id: &str) -> (r: Result<PlayRequest, PopisError>)
    ensures
        match (parse_i32_spec(n@), parse_i32_spec(id@)) {
            (Some(vote), Some(voting_id)) => r matches Ok(req) && req.vote == vote && req.voting_id
                == voting_id,
            (None, _) => r matches Err(PopisError::GameplayError(m)) && m@ == not_a_number_message(
                "n"@,
                n@,
            ),
            (Some(_), None) => r matches Err(PopisError::GameplayError(m)) && m@
                == not_a_number_message("id"@, id@),
        },
{
    let n_chars = chars_of(n);
    let picked = match parse_i32(n_chars.as_slice()) {
        Some(v) => v,
        None => {
            return Err(not_a_number("n", n));
        },
    };
    let id_chars = chars_of(id);
    let voting_id = match parse_i32(id_chars.as_slice()) {
        Some(v) => v,
        None => {
            return Err(not_a_number("id", id));
        },
    };
    Ok(PlayRequest::new(picked, voting_id))
}

} // verus!
