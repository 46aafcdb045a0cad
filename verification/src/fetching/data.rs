//! Addresses and what is known of a seating or a voting before its page is loaded.

use vstd::prelude::*;
use crate::domain::data::{SeatingHeader, VotingHeader};

verus! {

/// Whether `reqwest::Url::parse` accepts `s` (the WHATWG URL rules, pages long).
pub uninterp spec fn url_parse_succeeds(s: Seq<char>) -> bool;

/// `reqwest::Url::parse(s)` (the `url` crate's `Url::parse`) succeeds or fails
/// according to the URL rules; only whether it succeeds is used.
#[verifier::external_body]
fn url_parses(s: &str) -> (r: bool)
    ensures
        r == url_parse_succeeds(s@),
{
    reqwest::Url::parse(s).is_ok()
}

/// An absolute URL.
#[derive(Debug)]
pub struct Url(pub String);

impl Url {
    /// `s` as a URL, if it parses as one.
    pub fn try_new(s: String) -> (r: Option<Url>)
        ensures
            r is Some <==> url_parse_succeeds(s@),
            r matches Some(u) ==> u.0@ == s@,
    {
        if url_parses(s.as_str()) {
            Some(Url(s))
        } else {
            None
        }
    }

    /// The text of the URL.
    pub fn as_str(&self) -> (s: &str)
        ensures
            s@ == self.0@,
    {
        self.0.as_str()
    }
}

/// A seating whose votings are still to be loaded from `votings_url`.
#[derive(Debug)]
pub struct LoadableSeatingHeader {
    pub header: SeatingHeader,
    pub votings_url: Url,
}

impl LoadableSeatingHeader {
    pub fn new(header: SeatingHeader, url_to_load: Url) -> (h: LoadableSeatingHeader)
        ensures
            h.header == header,
            h.votings_url == url_to_load,
    {
        LoadableSeatingHeader { header, votings_url: url_to_load }
    }
}

/// A voting whose outcome is still to be loaded from `voting_result_url`.
#[derive(Debug)]
pub struct LoadableVoting {
    pub voting: VotingHeader,
    pub voting_result_url: Url,
}

impl LoadableVoting {
    pub fn new(voting: VotingHeader, voting_result_url: Url) -> (v: LoadableVoting)
        ensures
            v.voting == voting,
            v.voting_result_url == voting_result_url,
    {
        LoadableVoting { voting, voting_result_url }
    }
}

} // verus!
