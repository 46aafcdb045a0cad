use popis::domain::data::Vote;
use popis::error::PopisError;
use popis::fetching::data::Url;
use popis::fetching::document_parsing::{
    parse_seating_list, parse_seating_list_checked, parse_voting_result, parse_votings,
    party_vote_from_cells, seating_header_from_cells, voting_from_cells, Selectors,
    MAIN_PAGE_DIV_WITH_TABLE, MAIN_PAGE_TABLE_CONTENT,
};
use popis::fetching::html::{selector, Document};
use popis::fetching::loading::{read_document, seating_from_loaded};
use popis::fetching::tools::{
    date_fields, date_text_is_safe, map_date, parse_err, sanitize_html, seatings_url,
    try_seatings_url, url_from_link,
};
use popis::domain::data::{SeatingHeader, Voting, VotingHeader, VotingResult, Date};

#[test]
fn fetching_selectors_test() {
    selector(MAIN_PAGE_DIV_WITH_TABLE).unwrap();
    selector(MAIN_PAGE_TABLE_CONTENT).unwrap();
}

#[test]
fn document_parsing_selectors_test() {
    selector(MAIN_PAGE_DIV_WITH_TABLE).unwrap();
    selector(MAIN_PAGE_TABLE_CONTENT).unwrap();
}

#[test]
fn all_selectors_compile_and_bad_ones_do_not() {
    assert!(Selectors::new().is_some());
    assert!(selector("td[").is_none());
}

#[test]
fn addresses_of_pages() {
    let u = seatings_url(9);
    assert_eq!(u.as_str(), "https://www.sejm.gov.pl/sejm9.nsf/agent.xsp?symbol=posglos&NrKadencji=9");
    assert_eq!(try_seatings_url(10).unwrap().0, "https://www.sejm.gov.pl/sejm9.nsf/agent.xsp?symbol=posglos&NrKadencji=10");
    let l = url_from_link("agent.xsp?symbol=listaglos&IdDnia=1").unwrap();
    assert_eq!(l.0, "https://www.sejm.gov.pl/sejm9.nsf/agent.xsp?symbol=listaglos&IdDnia=1");
    assert!(Url::try_new("not a url".to_string()).is_none());
    assert!(Url::try_new("http://[::1".to_string()).is_none());
    assert!(Url::try_new("https://example.org/a".to_string()).is_some());
}

#[test]
fn polish_dates() {
    assert_eq!(date_fields(" 12 maja 2023 "), Some((2023, 5, 12)));
    assert_eq!(date_fields("1 września 2020 r."), Some((2020, 9, 1)));
    assert_eq!(date_fields("3 października 2019"), Some((2019, 10, 3)));
    assert_eq!(date_fields("12 foo 2023"), None);
    assert_eq!(date_fields("12  maja 2023"), None);
    assert_eq!(date_fields("12 maja"), None);
    assert_eq!(date_fields("x maja 2023"), None);
    let d = map_date("28 lutego 2023").unwrap();
    assert_eq!((d.year(), d.month(), d.day()), (2023, 2, 28));
    assert!(map_date("luty").is_none());
    assert!(date_text_is_safe("28 lutego 2023"));
    assert!(!date_text_is_safe("31 lutego 2023"));
    assert!(date_text_is_safe("31 foo 2023"));
}

#[test]
fn pages_are_sanitized_before_parsing() {
    assert_eq!(sanitize_html("a_b__c"), "axbxxc");
    assert_eq!(sanitize_html("żółw"), "żółw");
    match parse_err("boom") {
        PopisError::HtmlParsing(m) => assert_eq!(m, "boom"),
        _ => panic!("a parsing error"),
    }
}

const SEATINGS: &str = r#"<html><body><div id="contentBody"><table><tbody>
<tr><td>12</td><td><a href="agent.xsp?symbol=listaglos&amp;IdDnia=1">5 maja 2023</a></td></tr>
<tr><td>x</td><td><a href="agent.xsp?IdDnia=2">6 maja 2023</a></td></tr>
<tr><td>13</td><td>no link</td></tr>
<tr><td>14</td><td><a href="agent.xsp?IdDnia=3">7 grudnia 2022</a></td></tr>
</tbody></table></div></body></html>"#;

#[test]
fn seating_list_is_read_row_by_row() {
    let sels = Selectors::new().unwrap();
    let doc = Document::parse(SEATINGS);
    let list = parse_seating_list(&doc, &sels).unwrap();
    assert_eq!(list.len(), 2);
    assert_eq!(list[0].header.identifier, 12);
    let d = list[0].header.date;
    assert_eq!((d.year(), d.month(), d.day()), (2023, 5, 5));
    assert_eq!(list[0].votings_url.0, "https://www.sejm.gov.pl/sejm9.nsf/agent.xsp?symbol=listaglos&IdDnia=1");
    assert_eq!(list[1].header.identifier, 14);
    assert!(parse_seating_list_checked(&doc, &sels).unwrap().is_ok());
}

#[test]
fn seating_list_errors() {
    let sels = Selectors::new().unwrap();
    let no_table = Document::parse("<html><body><p>nothing</p></body></html>");
    match parse_seating_list(&no_table, &sels) {
        Err(PopisError::HtmlParsing(m)) => assert_eq!(m, "Didn't find table with seatings on the main page"),
        _ => panic!("no table"),
    }
    let no_rows = Document::parse(r#"<div id="contentBody"><table><tbody><tr><td>x</td></tr></tbody></table></div>"#);
    match parse_seating_list(&no_rows, &sels) {
        Err(PopisError::HtmlParsing(m)) => assert_eq!(m, "Didn't find any seatings in the list"),
        _ => panic!("no seatings"),
    }
    let bad_day = Document::parse(r#"<div id="contentBody"><table><tbody><tr><td>1</td><td><a href="a">31 lutego 2023</a></td></tr></tbody></table></div>"#);
    assert!(parse_seating_list_checked(&bad_day, &sels).is_none());
}

#[test]
fn seating_rows_from_cells() {
    let h = seating_header_from_cells(
        Some("3".to_string()),
        Some((Some("x".to_string()), "1 stycznia 2021".to_string())),
    )
    .unwrap();
    assert_eq!(h.header.identifier, 3);
    assert_eq!(h.votings_url.0, "https://www.sejm.gov.pl/sejm9.nsf/x");
    assert!(seating_header_from_cells(Some("3".to_string()), Some((None, "1 stycznia 2021".to_string()))).is_none());
    assert!(seating_header_from_cells(None, None).is_none());
}

const VOTINGS: &str = r#"<html><body><div id="contentBody"><table><tbody>
<tr><td><a href="agent.xsp?symbol=glosowania&amp;NrGlosowania=1">1</a></td><td>10:01</td><td>Pierwsze czytanie <a href="druk">projektu ustawy</a></td></tr>
<tr><td><a href="agent.xsp?NrGlosowania=2">2</a></td><td>10:02</td><td>Bez druku</td></tr>
<tr><td>3</td><td>10:03</td><td>Bez linku <a href="d">x</a></td></tr>
</tbody></table></div></body></html>"#;

#[test]
fn votings_of_a_seating() {
    let sels = Selectors::new().unwrap();
    let doc = read_document(VOTINGS);
    let votings = parse_votings(&doc, &sels).unwrap();
    assert_eq!(votings.len(), 1);
    assert_eq!(votings[0].voting.identifier, 1);
    assert_eq!(votings[0].voting.description, "Pierwsze czytanie projektu ustawy");
    assert_eq!(
        votings[0].voting_result_url.0,
        "https://www.sejm.gov.pl/sejm9.nsf/agent.xsp?symbol=glosowania&NrGlosowania=1"
    );
    match parse_votings(&Document::parse("<p></p>"), &sels) {
        Err(PopisError::HtmlParsing(m)) => assert_eq!(m, "Didn't find table in seating"),
        _ => panic!("no table"),
    }
    let v = voting_from_cells(
        Some((Some("g".to_string()), "4".to_string())),
        Some((Some("a ".to_string()), Some("b".to_string()))),
    )
    .unwrap();
    assert_eq!((v.voting.identifier, v.voting.description.as_str()), (4, "a b"));
    assert!(voting_from_cells(Some((Some("g".to_string()), "4".to_string())), Some((Some("a".to_string()), None))).is_none());
}

const RESULTS: &str = r#"<html><body><div id="main"><div id="contentBody"><table class="kluby"><tbody>
<tr><td><a><strong>PiS</strong></a></td><td>200</td><td>190</td><td><a><strong>180</strong></a></td><td><a><strong>5</strong></a></td><td><a><strong>5</strong></a></td></tr>
<tr><td><a><strong>KO</strong></a></td><td>120</td><td>110</td><td>0</td><td><a><strong>110</strong></a></td><td><a><strong>x</strong></a></td></tr>
<tr><td><a><strong>Lewica</strong></a></td><td>40</td><td>30</td><td>0</td><td>0</td><td><a><strong>30</strong></a></td></tr>
<tr><td>no party</td><td>1</td><td>1</td><td>1</td><td>1</td><td>1</td></tr>
<tr><td><a><strong>Short</strong></a></td><td>1</td></tr>
</tbody></table></div></div></body></html>"#;

#[test]
fn outcome_of_a_voting() {
    let sels = Selectors::new().unwrap();
    let doc = read_document(RESULTS);
    let result = parse_voting_result(&doc, &sels).unwrap();
    let got: Vec<(String, Vote)> = result.parties_votes.iter().map(|pv| (pv.party.name.clone(), pv.vote)).collect();
    assert_eq!(
        got,
        vec![
            ("PiS".to_string(), Vote::For),
            ("KO".to_string(), Vote::Against),
            ("Lewica".to_string(), Vote::Hold),
        ]
    );
    match parse_voting_result(&Document::parse("<div id=\"main\"></div>"), &sels) {
        Err(PopisError::HtmlParsing(m)) => assert_eq!(m, "Didn't find table body in voting results"),
        _ => panic!("no table"),
    }
    let pv = party_vote_from_cells(Some("P".to_string()), Some(None), Some(Some("2".to_string())), Some(Some("z".to_string()))).unwrap();
    assert_eq!((pv.party.name.as_str(), pv.vote), ("P", Vote::Against));
    assert!(party_vote_from_cells(Some("P".to_string()), Some(None), None, Some(None)).is_none());
}

#[test]
fn seating_keeps_votings_up_to_the_first_failure() {
    let voting = |n: i32| Voting::new(VotingHeader::new(n, "d".to_string()), VotingResult::new(vec![]));
    let s = seating_from_loaded(
        SeatingHeader::new(5, Date::default()),
        vec![Some(voting(1)), Some(voting(2)), None, Some(voting(3))],
    );
    assert_eq!(s.header.identifier, 5);
    let ids: Vec<i32> = s.votings.iter().map(|v| v.header.identifier).collect();
    assert_eq!(ids, vec![1, 2]);
    let all = seating_from_loaded(SeatingHeader::new(6, Date::default()), vec![Some(voting(4))]);
    assert_eq!(all.votings.len(), 1);
}
