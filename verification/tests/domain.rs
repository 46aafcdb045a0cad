use popis::domain::data::{
    Date, Party, PartyVote, Seating, SeatingHeader, Vote, Voting, VotingHeader, VotingResult,
};
use popis::domain::helper::parties_in_seating;
use popis::error::PopisError;
use popis::filling::{fill_step, FillAction, FillEvent};
use popis::domain::{Seating as Listed, SeatingList, Url, Voting as ListedVoting};

#[test]
fn data_from_votes_tests() {
    assert!(matches!(Vote::from_votes(1, 0, 2), Vote::Hold));
    assert!(matches!(Vote::from_votes(2, 4, 2), Vote::Against));
    assert!(matches!(Vote::from_votes(5, 4, 3), Vote::For));

    assert!(matches!(Vote::from_votes(1, 1, 2), Vote::Hold));
    assert!(matches!(Vote::from_votes(3, 4, 2), Vote::Against));
    assert!(matches!(Vote::from_votes(2, 2, 2), Vote::For));
}

#[test]
fn mod_from_votes_tests() {
    assert!(matches!(Vote::from_votes(1, 0, 2), Vote::Hold));
    assert!(matches!(Vote::from_votes(2, 4, 2), Vote::Against));
    assert!(matches!(Vote::from_votes(5, 4, 3), Vote::For));

    assert!(matches!(Vote::from_votes(1, 1, 2), Vote::Hold));
    assert!(matches!(Vote::from_votes(3, 4, 2), Vote::Against));
    assert!(matches!(Vote::from_votes(2, 2, 2), Vote::For));
}

#[test]
fn from_votes_ties_prefer_for_then_against() {
    assert_eq!(Vote::from_votes(0, 0, 0), Vote::For);
    assert_eq!(Vote::from_votes(1, 3, 3), Vote::Against);
    assert_eq!(Vote::from_votes(4, 1, 4), Vote::For);
    assert_eq!(Vote::from_votes(0, 0, 1), Vote::Hold);
}

#[test]
fn vote_numbers_round_trip() {
    assert_eq!(Vote::For.num(), 0);
    assert_eq!(Vote::Against.num(), 1);
    assert_eq!(Vote::Hold.num(), 2);
    for v in [Vote::For, Vote::Against, Vote::Hold] {
        assert_eq!(Vote::from_num(v.num() as i64), v);
    }
    for n in 0..3i64 {
        assert_eq!(Vote::from_num(n).num() as i64, n);
    }
}

#[test]
fn dates_exist_only_on_calendar_days() {
    let d = Date::from_ymd_opt(2024, 2, 29).unwrap();
    assert_eq!((d.year(), d.month(), d.day()), (2024, 2, 29));
    assert!(Date::from_ymd_opt(2023, 2, 29).is_none());
    assert!(Date::from_ymd_opt(2023, 4, 31).is_none());
    assert!(Date::from_ymd_opt(2023, 13, 1).is_none());
    assert!(Date::from_ymd_opt(2023, 1, 0).is_none());
    assert!(Date::from_ymd_opt(-4, 2, 29).is_some());
    assert!(Date::from_ymd_opt(1900, 2, 29).is_none());
    assert!(Date::from_ymd_opt(2000, 2, 29).is_some());
    assert!(Date::from_ymd_opt(262142, 12, 31).is_some());
    assert!(Date::from_ymd_opt(262143, 1, 1).is_none());
    assert!(Date::from_ymd_opt(-262143, 1, 1).is_some());
    assert!(Date::from_ymd_opt(-262144, 1, 1).is_none());
    let e = Date::default();
    assert_eq!((e.year(), e.month(), e.day()), (1970, 1, 1));
}

fn party_vote(name: &str, vote: Vote) -> PartyVote {
    PartyVote::new(Party::new(name.to_string()), vote)
}

#[test]
fn parties_in_seating_test() {
    let seating = Seating::new(
        SeatingHeader::new(0, Default::default()),
        vec![
            Voting::new(
                VotingHeader::new(0, Default::default()),
                VotingResult::new(vec![
                    party_vote("a", Vote::Against),
                    party_vote("b", Vote::Against),
                    party_vote("c", Vote::Against),
                ]),
            ),
            Voting::new(
                VotingHeader::new(0, Default::default()),
                VotingResult::new(vec![
                    party_vote("d", Vote::Against),
                    party_vote("e", Vote::Against),
                    party_vote("f", Vote::Against),
                ]),
            ),
        ],
    );
    let parties_found = Vec::from_iter(parties_in_seating(&seating).unwrap());
    assert!(vec!["a", "b", "c", "d", "e", "f"]
        .iter()
        .all(|x| parties_found.iter().any(|p| p == x)));
}

#[test]
fn parties_in_seating_lists_each_party_once_in_order() {
    let seating = Seating::new(
        SeatingHeader::new(7, Date::from_ymd_opt(2023, 5, 12).unwrap()),
        vec![
            Voting::new(
                VotingHeader::new(1, "x".to_string()),
                VotingResult::new(vec![party_vote("b", Vote::For), party_vote("a", Vote::Hold)]),
            ),
            Voting::new(
                VotingHeader::new(2, "y".to_string()),
                VotingResult::new(vec![
                    party_vote("a", Vote::For),
                    party_vote("c", Vote::For),
                    party_vote("b", Vote::Against),
                ]),
            ),
        ],
    );
    assert_eq!(parties_in_seating(&seating).unwrap(), vec!["b", "a", "c"]);
    let empty = Seating::new(SeatingHeader::new(1, Date::default()), vec![]);
    assert!(parties_in_seating(&empty).unwrap().is_empty());
}

#[test]
fn status_codes_of_errors() {
    let s = || "m".to_string();
    assert_eq!(PopisError::WebRequest(s()).status_code(), 424);
    assert_eq!(PopisError::HtmlParsing(s()).status_code(), 424);
    assert_eq!(PopisError::DbConnectionError(s()).status_code(), 503);
    assert_eq!(PopisError::DbCommunicationError(s()).status_code(), 503);
    assert_eq!(PopisError::LogicError(s()).status_code(), 500);
    assert_eq!(PopisError::ServerStart(s()).status_code(), 503);
    assert_eq!(PopisError::GameplayError(s()).status_code(), 400);
}

#[test]
fn seatings_and_votings_found_in_lists_start_unloaded() {
    let link = Url::try_new("https://www.sejm.gov.pl/sejm9.nsf/a".to_string()).unwrap();
    let s = Listed::new(link, Date::from_ymd_opt(2021, 3, 4).unwrap(), 31);
    assert_eq!(s.number, 31);
    assert!(s.votings.is_none());
    let list = SeatingList::new(vec![s]);
    assert_eq!(list.seatings.len(), 1);
    let v = ListedVoting::new(Url("https://x.org/v".to_string()), 2, "opis".to_string());
    assert_eq!((v.number, v.description.as_str()), (2, "opis"));
    assert!(v.voting_results.is_none());
}

#[test]
fn filling_checks_loads_and_stores_in_order() {
    assert_eq!(fill_step(0, FillEvent::Started), FillAction::Finish);
    assert_eq!(fill_step(2, FillEvent::Started), FillAction::Check(0));
    assert_eq!(fill_step(2, FillEvent::Checked { index: 0, already_stored: true }), FillAction::Check(1));
    assert_eq!(fill_step(2, FillEvent::Checked { index: 1, already_stored: false }), FillAction::Load(1));
    assert_eq!(fill_step(2, FillEvent::Loaded { index: 1, ok: true }), FillAction::Store(1));
    assert_eq!(fill_step(2, FillEvent::Loaded { index: 0, ok: false }), FillAction::Check(1));
    assert_eq!(fill_step(2, FillEvent::Stored { index: 1 }), FillAction::Finish);
}
