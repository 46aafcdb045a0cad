//! The votings of the parliament as the service stores and plays them.

use vstd::prelude::*;

verus! {

// ---------------------------------------------------------------- dates

/// Whether `y` is a leap year of the proleptic Gregorian calendar.
pub open spec fn is_leap_year(y: int) -> bool {
    y % 4 == 0 && (y % 100 != 0 || y % 400 == 0)
}

/// Number of days of month `m` in year `y`.
pub open spec fn days_in_month(y: int, m: int) -> int {
    if m == 2 {
        if is_leap_year(y) {
            29
        } else {
            28
        }
    } else if m == 4 || m == 6 || m == 9 || m == 11 {
        30
    } else {
        31
    }
}

/// Whether `year-month-day` is a calendar day that `chrono::NaiveDate` can hold.
pub open spec fn valid_ymd(year: i32, month: u32, day: u32) -> bool {
    &&& -262143 <= year <= 262142
    &&& 1 <= month <= 12
    &&& 1 <= day <= days_in_month(year as int, month as int)
}

/// `chrono::NaiveDate::from_ymd_opt(year, month, day)` returns `Some` exactly for the
/// existing calendar days whose year lies in chrono's range (`MIN_YEAR` is -262143,
/// `MAX_YEAR` is 262142); this tells which.
#[verifier::external_body]
fn calendar_day_exists(year: i32, month: u32, day: u32) -> (r: bool)
    ensures
        r == valid_ymd(year, month, day),
{
    chrono::NaiveDate::from_ymd_opt(year, month, day).is_some()
}

/// A calendar day; the day of a seating (stored as midnight UTC).
#[derive(Debug, Clone, Copy)]
pub struct Date {
    year: i32,
    month: u32,
    day: u32,
}

impl View for Date {
    type V = (i32, u32, u32);

    open spec fn view(&self) -> (i32, u32, u32) {
        (self.spec_year(), self.spec_month(), self.spec_day())
    }
}

impl Date {
    pub closed spec fn spec_year(&self) -> i32 {
        self.year
    }

    pub closed spec fn spec_month(&self) -> u32 {
        self.month
    }

    pub closed spec fn spec_day(&self) -> u32 {
        self.day
    }

    #[verifier::type_invariant]
    closed spec fn inv(self) -> bool {
        valid_ymd(self.year, self.month, self.day)
    }

    /// The day `year-month-day`, or `None` if there is no such calendar day.
    pub fn from_ymd_opt(year: i32, month: u32, day: u32) -> (r: Option<Date>)
        ensures
            r is Some <==> valid_ymd(year, month, day),
            r matches Some(d) ==> d@ == (year, month, day),
    {
        if calendar_day_exists(year, month, day) {
            Some(Date { year, month, day })
        } else {
            None
        }
    }

    pub fn year(&self) -> (y: i32)
        ensures
            y == self@.0,
            valid_ymd(self@.0, self@.1, self@.2),
    {
        proof {
            use_type_invariant(self);
        }
        self.year
    }

    pub fn month(&self) -> (m: u32)
        ensures
            m == self@.1,
            valid_ymd(self@.0, self@.1, self@.2),
    {
        proof {
            use_type_invariant(self);
        }
        self.month
    }

    pub fn day(&self) -> (d: u32)
        ensures
            d == self@.2,
            valid_ymd(self@.0, self@.1, self@.2),
    {
        proof {
            use_type_invariant(self);
        }
        self.day
    }
}

impl Default for Date {
    /// 1970-01-01, the day of the Unix epoch.
    fn default() -> (d: Date)
        ensures
            d@ == (1970i32, 1u32, 1u32),
    {
        Date { year: 1970, month: 1, day: 1 }
    }
}

// ---------------------------------------------------------------- votes

/// How a party voted.
#[derive(Debug, Clone, Copy, PartialEq, Eq, Structural)]
pub enum Vote {
    For,
    Against,
    Hold,
}

/// The vote of a party whose members cast `votes_for`, `votes_against` and
/// `votes_held` votes: the most common one; on a tie `For` wins over `Against`
/// and `Against` over `Hold`.
pub open spec fn from_votes_spec(votes_for: u32, votes_against: u32, votes_held: u32) -> Vote {
    if votes_for >= votes_against && votes_for >= votes_held {
        Vote::For
    } else if votes_against >= votes_held {
        Vote::Against
    } else {
        Vote::Hold
    }
}

/// How many of the three counts went to `v`.
pub open spec fn count_of(v: Vote, votes_for: u32, votes_against: u32, votes_held: u32) -> u32 {
    match v {
        Vote::For => votes_for,
        Vote::Against => votes_against,
        Vote::Hold => votes_held,
    }
}

/// The number under which a vote is stored: 0 for, 1 against, 2 held.
pub open spec fn vote_num_spec(v: Vote) -> i32 {
    match v {
        Vote::For => 0,
        Vote::Against => 1,
        Vote::Hold => 2,
    }
}

/// The vote stored under `n`.
pub open spec fn vote_from_num_spec(n: int) -> Vote {
    if n == 0 {
        Vote::For
    } else if n == 1 {
        Vote::Against
    } else {
        Vote::Hold
    }
}

impl Vote {
    /// The vote of a party from the counts of its members' votes (see `from_votes_spec`).
    pub fn from_votes(votes_for: u32, votes_against: u32, votes_held: u32) -> (v: Vote)
        ensures
            v == from_votes_spec(votes_for, votes_against, votes_held),
    {
        let max_fa = if votes_for >= votes_against {
            votes_for
        } else {
            votes_against
        };
        let max = if max_fa >= votes_held {
            max_fa
        } else {
            votes_held
        };
        if max == votes_for {
            Vote::For
        } else if max == votes_against {
            Vote::Against
        } else {
            Vote::Hold
        }
    }

    /// The number under which this vote is stored.
    pub fn num(&self) -> (n: i32)
        ensures
            n == vote_num_spec(*self),
    {
        match self {
            Vote::For => 0,
            Vote::Against => 1,
            Vote::Hold => 2,
        }
    }

    /// The vote stored under `n`; only 0, 1 and 2 are votes.
    pub fn from_num(n: i64) -> (v: Vote)
        requires
            0 <= n <= 2,
        ensures
            v == vote_from_num_spec(n as int),
            vote_num_spec(v) == n,
    {
        if n == 0 {
            Vote::For
        } else if n == 1 {
            Vote::Against
        } else {
            Vote::Hold
        }
    }
}

/// The vote that `from_votes` picks has a count at least as large as each of the
/// three, and any vote that comes before it in the order for, against, held has a
/// strictly smaller count.
pub proof fn lemma_from_votes_is_plurality(votes_for: u32, votes_against: u32, votes_held: u32)
    ensures
        ({
            let v = from_votes_spec(votes_for, votes_against, votes_held);
            let c = count_of(v, votes_for, votes_against, votes_held);
            &&& c >= votes_for && c >= votes_against && c >= votes_held
            &&& v == Vote::Against ==> votes_for < votes_against
            &&& v == Vote::Hold ==> votes_for < votes_held && votes_against < votes_held
        }),
{
}

/// A vote stored as its number is read back as the same vote, and each of the
/// numbers 0, 1, 2 is the number of the vote read from it.
pub proof fn lemma_vote_num_round_trip(v: Vote, n: int)
    ensures
        vote_from_num_spec(vote_num_spec(v) as int) == v,
        0 <= n <= 2 ==> vote_num_spec(vote_from_num_spec(n)) == n,
{
}

// ---------------------------------------------------------------- parties and votings

/// A parliamentary club.
#[derive(Debug)]
pub struct Party {
    pub name: String,
}

impl Party {
    pub fn new(name: String) -> (p: Party)
        ensures
            p.name == name,
    {
        Party { name }
    }
}

/// How one party voted in one voting.
#[derive(Debug)]
pub struct PartyVote {
    pub party: Party,
    pub vote: Vote,
}

impl View for PartyVote {
    type V = (Seq<char>, Vote);

    open spec fn view(&self) -> (Seq<char>, Vote) {
        (self.party.name@, self.vote)
    }
}

impl PartyVote {
    pub fn new(party: Party, vote: Vote) -> (pv: PartyVote)
        ensures
            pv.party == party,
            pv.vote == vote,
    {
        PartyVote { party, vote }
    }
}

/// The party votes of a list, each as (party name, vote).
pub open spec fn party_votes_view(pvs: Seq<PartyVote>) -> Seq<(Seq<char>, Vote)> {
    pvs.map_values(|pv: PartyVote| pv@)
}

/// The outcome of one voting, party by party.
#[derive(Debug)]
pub struct VotingResult {
    pub parties_votes: Vec<PartyVote>,
}

impl VotingResult {
    pub fn new(parties_votes: Vec<PartyVote>) -> (r: VotingResult)
        ensures
            r.parties_votes == parties_votes,
    {
        VotingResult { parties_votes }
    }
}

/// The number and the subject of a voting.
#[derive(Debug)]
pub struct VotingHeader {
    pub identifier: i32,
    pub description: String,
}

impl VotingHeader {
    pub fn new(number: i32, description: String) -> (h: VotingHeader)
        ensures
            h.identifier == number,
            h.description == description,
    {
        VotingHeader { identifier: number, description }
    }
}

/// A voting with its outcome.
#[derive(Debug)]
pub struct Voting {
    pub header: VotingHeader,
    pub voting_result: VotingResult,
}

impl Voting {
    pub fn new(header: VotingHeader, voting_result: VotingResult) -> (v: Voting)
        ensures
            v.header == header,
            v.voting_result == voting_result,
    {
        Voting { header, voting_result }
    }
}

/// The number and the day of a seating.
#[derive(Debug)]
pub struct SeatingHeader {
    pub identifier: i32,
    pub date: Date,
}

impl SeatingHeader {
    pub fn new(number: i32, date: Date) -> (h: SeatingHeader)
        ensures
            h.identifier == number,
            h.date == date,
    {
        SeatingHeader { identifier: number, date }
    }
}

/// A seating of the parliament with the votings held in it.
#[derive(Debug)]
pub struct Seating {
    pub header: SeatingHeader,
    pub votings: Vec<Voting>,
}

impl Seating {
    pub fn new(header: SeatingHeader, votings: Vec<Voting>) -> (s: Seating)
        ensures
            s.header == header,
            s.votings == votings,
    {
        Seating { header, votings }
    }
}

} // verus!
