use popis::db::data::DbVotingHeader;
use popis::domain::data::{Party, PartyVote, Vote, VotingHeader};
use popis::domain::favourites::Favourites;
use popis::domain::game::data::RandomNGameState;
use popis::domain::game::random_n::{begin, chose};
use popis::domain::random_n_game::data::{GameResponse, GameState, PlayRequest};
use popis::domain::random_n_game::engine;
use popis::domain::random_n_game::engine::player_chose;
use popis::domain::random_n_game::orchestrator::{answer_choice, play_response};

fn party_vote(a: &str, b: Vote) -> PartyVote {
    PartyVote::new(Party::new(a.to_string()), b)
}

#[test]
fn random_n_single_game() {
    let party_vote = |a: &str, b| PartyVote::new(Party::new(a.to_string()), b);
    let mut game = begin(3);
    let p1 = vec![party_vote("a", Vote::For), party_vote("b", Vote::Against)];
    let p2 = vec![party_vote("a", Vote::Against), party_vote("b", Vote::For)];
    let p3 = vec![party_vote("a", Vote::Hold), party_vote("b", Vote::Against)];

    game = chose(game, &Vote::For, &p1);
    game = chose(game, &Vote::Against, &p2);
    game = chose(game, &Vote::Hold, &p3);

    match game {
        RandomNGameState::Asking { .. } => panic!("Game should have ended so far."),
        RandomNGameState::Result(r) => assert_eq!(r, ["a"]),
    }
}

#[test]
fn engine_single_game() {
    let party_vote = |a: &str, b| PartyVote::new(Party::new(a.to_string()), b);
    let mut game = engine::begin(3);
    let p1 = vec![party_vote("a", Vote::For), party_vote("b", Vote::Against)];
    let p2 = vec![party_vote("a", Vote::Against), party_vote("b", Vote::For)];
    let p3 = vec![party_vote("a", Vote::Hold), party_vote("b", Vote::Against)];

    assert!(player_chose(&mut game, &Vote::For, &p1).is_none());
    assert!(player_chose(&mut game, &Vote::Against, &p2).is_none());
    let result = player_chose(&mut game, &Vote::Hold, &p3).unwrap();

    assert_eq!(result, ["a"]);
}

#[test]
fn random_n_game_keeps_asking_until_the_limit_and_then_stays_finished() {
    let p = vec![party_vote("a", Vote::For), party_vote("b", Vote::For)];
    let mut game = begin(2);
    game = chose(game, &Vote::For, &p);
    match &game {
        RandomNGameState::Asking { limit, asked_so_far, .. } => {
            assert_eq!((*limit, *asked_so_far), (2, 1));
        }
        RandomNGameState::Result(_) => panic!("one question is left"),
    }
    game = chose(game, &Vote::Against, &p);
    match &game {
        RandomNGameState::Result(r) => assert_eq!(r, &["a", "b"]),
        RandomNGameState::Asking { .. } => panic!("the game is over"),
    }
    game = chose(game, &Vote::For, &p);
    match game {
        RandomNGameState::Result(r) => assert_eq!(r, ["a", "b"]),
        RandomNGameState::Asking { .. } => panic!("the game stays over"),
    }
}

#[test]
fn engine_after_the_limit_keeps_answering_with_the_winners() {
    let p = vec![party_vote("x", Vote::Hold), party_vote("y", Vote::For)];
    let mut game = GameState::new(1);
    assert_eq!(player_chose(&mut game, &Vote::Hold, &p).unwrap(), ["x"]);
    assert_eq!(player_chose(&mut game, &Vote::For, &p).unwrap(), ["x"]);
    let mut none = GameState::default();
    assert_eq!(player_chose(&mut none, &Vote::For, &p).unwrap(), Vec::<String>::new());
}

#[test]
fn favourites_winners_are_the_most_counted() {
    let mut f = Favourites::new();
    assert!(f.find_winners().is_empty());
    let votes = vec![
        party_vote("a", Vote::For),
        party_vote("b", Vote::For),
        party_vote("c", Vote::Against),
        party_vote("b", Vote::For),
    ];
    f.resolve_favourites(&Vote::For, &votes);
    assert_eq!(f.find_winners(), ["b"]);
    f.resolve_favourites(&Vote::Against, &votes);
    f.resolve_favourites(&Vote::Against, &votes);
    assert_eq!(f.find_winners(), ["b", "c"]);
}

#[test]
fn session_answers_and_responses() {
    let p = vec![party_vote("a", Vote::Against), party_vote("b", Vote::Hold)];
    let mut game = GameState::new(2);
    assert!(answer_choice(&mut game, 1, &p).is_none());
    match answer_choice(&mut game, 2, &p) {
        Some(GameResponse::Result { favourite_parties }) => assert_eq!(favourite_parties, ["a", "b"]),
        _ => panic!("the game is over after two answers"),
    }
    match play_response(DbVotingHeader::new(17, VotingHeader::new(3, "Ustawa".to_string()))) {
        GameResponse::Play { voting_description, voting_id } => {
            assert_eq!(voting_description, "Ustawa");
            assert_eq!(voting_id, 17);
        }
        _ => panic!("the game goes on"),
    }
    let req = PlayRequest::new(2, 5);
    assert_eq!((req.vote, req.voting_id), (2, 5));
}
