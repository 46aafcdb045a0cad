use popis::db::command::{
    insert_parties_query, insert_votes_query, missing_parties, party_placeholders,
    record_party_ids, vote_placeholders, vote_rows, PartyIds,
};
use popis::db::provider::connection_config;
use popis::db::query::random_identifier;
use popis::domain::data::{Party, PartyVote, Vote, VotingResult};
use popis::error::PopisError;
use popis::server::services::{parse_game_limit, parse_play_request};

fn s(x: &str) -> String {
    x.to_string()
}

#[test]
fn statements_for_new_parties() {
    assert_eq!(party_placeholders(0), "");
    assert_eq!(party_placeholders(3), "($1),($2),($3)");
    assert_eq!(insert_parties_query(2), "INSERT INTO party (name) VALUES ($1),($2) RETURNING id;");
}

#[test]
fn statements_for_votes() {
    assert_eq!(vote_placeholders(1), "($1,$2,$3)");
    assert_eq!(
        insert_votes_query(4),
        "INSERT INTO vote (voting_id, party_id, result) VALUES ($1,$2,$3),($4,$5,$6),($7,$8,$9),($10,$11,$12);"
    );
}

#[test]
fn party_ids_are_looked_up_and_recorded() {
    let mut ids = PartyIds::from_rows(vec![(s("a"), 1), (s("b"), 2), (s("a"), 3)]);
    assert_eq!(ids.get(&s("a")), Some(3));
    assert_eq!(ids.get(&s("c")), None);
    let missing = missing_parties(vec![s("c"), s("a"), s("d")], &ids);
    assert_eq!(missing, vec![s("c"), s("d")]);
    record_party_ids(&mut ids, missing, vec![10, 11, 12]);
    assert_eq!(ids.get(&s("c")), Some(10));
    assert_eq!(ids.get(&s("d")), Some(11));
    assert!(ids.contains_key(&s("b")));

    let result = VotingResult::new(vec![
        PartyVote::new(Party::new(s("a")), Vote::Hold),
        PartyVote::new(Party::new(s("d")), Vote::For),
    ]);
    assert_eq!(vote_rows(7, &ids, &result).unwrap(), vec![(7, 3, 2), (7, 11, 0)]);
    let unknown = VotingResult::new(vec![PartyVote::new(Party::new(s("z")), Vote::Against)]);
    match vote_rows(7, &ids, &unknown) {
        Err(PopisError::LogicError(m)) => assert_eq!(m, "All parties should be in cache already."),
        _ => panic!("z has no id"),
    }
}

#[test]
fn database_settings_and_choices() {
    assert_eq!(
        connection_config(None, None),
        "host=localhost port=5432 user=postgres password=admin"
    );
    assert_eq!(
        connection_config(Some(s("db")), Some(s("6000"))),
        "host=db port=6000 user=postgres password=admin"
    );
    for _ in 0..50 {
        let r = random_identifier(4);
        assert!((1..=4).contains(&r));
    }
    assert_eq!(random_identifier(1), 1);
}

#[test]
fn game_path_parameters() {
    assert_eq!(parse_game_limit("3").unwrap(), 3);
    match parse_game_limit("300") {
        Err(PopisError::GameplayError(m)) => assert_eq!(m, "Couldn't parse n: 300 into a number"),
        _ => panic!("300 is no u8"),
    }
    let req = parse_play_request("1", "42").unwrap();
    assert_eq!((req.vote, req.voting_id), (1, 42));
    match parse_play_request("a", "b") {
        Err(PopisError::GameplayError(m)) => assert_eq!(m, "Couldn't parse n: a into a number"),
        _ => panic!("a is no number"),
    }
    match parse_play_request("1", "b") {
        Err(PopisError::GameplayError(m)) => assert_eq!(m, "Couldn't parse id: b into a number"),
        _ => panic!("b is no number"),
    }
}
