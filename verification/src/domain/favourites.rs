//! The tally of a game: for each party, how often the player voted like it.

use vstd::prelude::*;
use crate::domain::data::{PartyVote, Vote, party_votes_view};
use crate::keyed::{
    distinct_keys, index_of_key, insert_key, lookup, lemma_index_of_key, lemma_index_of_key_at,
    lemma_insert_key,
};

verus! {

/// A tally as a sequence of (party name, count), in the order in which the parties
/// were first counted.
pub type Tally = Seq<(Seq<char>, u8)>;

/// How often `name` was counted in `t`.
pub open spec fn count_in(t: Tally, name: Seq<char>) -> nat {
    match lookup(t, name) {
        Some(c) => c as nat,
        None => 0,
    }
}

/// `t` with one more for `name`: its entry is raised by one, or a new entry with
/// one is appended.
pub open spec fn bump(t: Tally, name: Seq<char>) -> Tally {
    insert_key(t, name, (count_in(t, name) + 1) as u8)
}

/// `t` after counting, in order, each party of `pvs` that voted `vote`.
pub open spec fn resolve_spec(t: Tally, vote: Vote, pvs: Seq<(Seq<char>, Vote)>) -> Tally
    decreases pvs.len(),
{
    if pvs.len() == 0 {
        t
    } else {
        let prev = resolve_spec(t, vote, pvs.drop_last());
        if pvs.last().1 == vote {
            bump(prev, pvs.last().0)
        } else {
            prev
        }
    }
}

/// How many entries of `pvs` say that `name` voted `vote`.
pub open spec fn occurrences(pvs: Seq<(Seq<char>, Vote)>, vote: Vote, name: Seq<char>) -> nat
    decreases pvs.len(),
{
    if pvs.len() == 0 {
        0
    } else {
        occurrences(pvs.drop_last(), vote, name) + if pvs.last() == (name, vote) {
            1nat
        } else {
            0nat
        }
    }
}

/// Counting the parties of `pvs` that voted `vote` keeps every count within `u8`.
pub open spec fn fits_in_tally(t: Tally, vote: Vote, pvs: Seq<(Seq<char>, Vote)>) -> bool {
    forall|name: Seq<char>| #[trigger] count_in(t, name) + occurrences(pvs, vote, name) <= 255
}

/// The largest count of `t`, 0 for an empty tally.
pub open spec fn max_count(t: Tally) -> u8
    decreases t.len(),
{
    if t.len() == 0 {
        0
    } else {
        let m = max_count(t.drop_last());
        if t.last().1 > m {
            t.last().1
        } else {
            m
        }
    }
}

/// The parties of `t` whose count is `m`, in tally order.
pub open spec fn parties_with_count(t: Tally, m: u8) -> Seq<Seq<char>>
    decreases t.len(),
{
    if t.len() == 0 {
        Seq::empty()
    } else {
        let w = parties_with_count(t.drop_last(), m);
        if t.last().1 == m {
            w.push(t.last().0)
        } else {
            w
        }
    }
}

/// The parties with the largest count.
pub open spec fn winners_spec(t: Tally) -> Seq<Seq<char>> {
    parties_with_count(t, max_count(t))
}

// ---------------------------------------------------------------- lemmas

/// Counting `name` once raises its count by one and leaves the others alone; no
/// party gets a second entry.
pub proof fn lemma_bump(t: Tally, name: Seq<char>)
    requires
        distinct_keys(t),
        count_in(t, name) < 255,
    ensures
        distinct_keys(bump(t, name)),
        forall|n: Seq<char>| #[trigger]
            count_in(bump(t, name), n) == count_in(t, n) + if n == name {
                1nat
            } else {
                0nat
            },
{
    lemma_insert_key(t, name, (count_in(t, name) + 1) as u8);
}

proof fn lemma_occurrences_prefix(pvs: Seq<(Seq<char>, Vote)>, vote: Vote, name: Seq<char>, i: int)
    requires
        0 <= i <= pvs.len(),
    ensures
        occurrences(pvs.take(i), vote, name) <= occurrences(pvs, vote, name),
    decreases pvs.len() - i,
{
    if i < pvs.len() {
        lemma_occurrences_prefix(pvs, vote, name, i + 1);
        assert(pvs.take(i + 1).drop_last() =~= pvs.take(i));
    } else {
        assert(pvs.take(i) =~= pvs);
    }
}

/// Each count after resolving is the count before plus the number of times the
/// party voted `vote`; no party gets a second entry.
pub proof fn lemma_resolve_counts(t: Tally, vote: Vote, pvs: Seq<(Seq<char>, Vote)>)
    requires
        distinct_keys(t),
        fits_in_tally(t, vote, pvs),
    ensures
        distinct_keys(resolve_spec(t, vote, pvs)),
        forall|n: Seq<char>| #[trigger]
            count_in(resolve_spec(t, vote, pvs), n) == count_in(t, n) + occurrences(pvs, vote, n),
    decreases pvs.len(),
{
    if pvs.len() > 0 {
        let prev_pvs = pvs.drop_last();
        assert forall|n: Seq<char>| #[trigger]
            count_in(t, n) + occurrences(prev_pvs, vote, n) <= 255 by {
            assert(count_in(t, n) + occurrences(pvs, vote, n) <= 255);
        }
        lemma_resolve_counts(t, vote, prev_pvs);
        let prev = resolve_spec(t, vote, prev_pvs);
        if pvs.last().1 == vote {
            let name = pvs.last().0;
            assert(count_in(t, name) + occurrences(pvs, vote, name) <= 255);
            lemma_bump(prev, name);
        }
    }
}

proof fn lemma_count_bound(t: Tally, name: Seq<char>)
    ensures
        count_in(t, name) <= 255,
{
}

/// A party that voted `vote` somewhere in `pvs` has an entry there.
proof fn lemma_occurrence_index(pvs: Seq<(Seq<char>, Vote)>, vote: Vote, name: Seq<char>) -> (k: int)
    requires
        occurrences(pvs, vote, name) > 0,
    ensures
        0 <= k < pvs.len(),
        pvs[k] == (name, vote),
    decreases pvs.len(),
{
    if pvs.last() == (name, vote) {
        pvs.len() - 1
    } else {
        let k = lemma_occurrence_index(pvs.drop_last(), vote, name);
        assert(pvs[k] == pvs.drop_last()[k]);
        k
    }
}

/// Every count is at most the largest one, and the largest one is a count of
/// some party unless the tally is empty.
pub proof fn lemma_max_count(t: Tally)
    ensures
        forall|i: int| 0 <= i < t.len() ==> t[i].1 <= max_count(t),
        t.len() > 0 ==> exists|i: int| 0 <= i < t.len() && t[i].1 == max_count(t),
    decreases t.len(),
{
    if t.len() > 0 {
        lemma_max_count(t.drop_last());
        let m = max_count(t.drop_last());
        assert forall|i: int| 0 <= i < t.len() implies t[i].1 <= max_count(t) by {
            if i < t.len() - 1 {
                assert(t[i] == t.drop_last()[i]);
            }
        }
        if t.last().1 <= m && t.len() > 1 {
            let i = choose|i: int| 0 <= i < t.drop_last().len() && t.drop_last()[i].1 == m;
            assert(t[i] == t.drop_last()[i]);
        }
    }
}

/// A party is among `parties_with_count(t, m)` exactly when its entry has count `m`;
/// the result lists no party twice when `t` does not.
pub proof fn lemma_parties_with_count(t: Tally, m: u8)
    ensures
        forall|x: Seq<char>| #[trigger]
            parties_with_count(t, m).contains(x) <==> exists|i: int|
                0 <= i < t.len() && t[i].0 == x && t[i].1 == m,
        distinct_keys(t) ==> parties_with_count(t, m).no_duplicates(),
    decreases t.len(),
{
    if t.len() > 0 {
        let d = t.drop_last();
        lemma_parties_with_count(d, m);
        let w = parties_with_count(d, m);
        assert forall|x: Seq<char>| #[trigger]
            parties_with_count(t, m).contains(x) <==> exists|i: int|
                0 <= i < t.len() && t[i].0 == x && t[i].1 == m by {
            if parties_with_count(t, m).contains(x) {
                if w.contains(x) {
                    let i = choose|i: int| 0 <= i < d.len() && d[i].0 == x && d[i].1 == m;
                    assert(t[i] == d[i]);
                } else {
                    assert(x == t.last().0);
                    assert(t[t.len() - 1] == t.last());
                }
            }
            if exists|i: int| 0 <= i < t.len() && t[i].0 == x && t[i].1 == m {
                let i = choose|i: int| 0 <= i < t.len() && t[i].0 == x && t[i].1 == m;
                if i < t.len() - 1 {
                    assert(d[i] == t[i]);
                    assert(w.contains(x));
                    if t.last().1 == m {
                        assert(w.push(t.last().0)[w.index_of(x)] == x);
                    }
                } else {
                    assert(parties_with_count(t, m) == w.push(t.last().0));
                    assert(parties_with_count(t, m)[w.len() as int] == x);
                }
            }
        }
        if distinct_keys(t) {
            assert(distinct_keys(d));
            if t.last().1 == m {
                if w.contains(t.last().0) {
                    let i = choose|i: int| 0 <= i < d.len() && d[i].0 == t.last().0 && d[i].1 == m;
                    assert(t[i] == d[i]);
                    assert(t[t.len() - 1] == t.last());
                    assert(false);
                }
            }
        }
    }
}

/// The winners of a tally are exactly the parties with the largest count: each of
/// them has a count no other party exceeds, every party with that count is among
/// them, none is listed twice, and there is one unless the tally is empty.
pub proof fn lemma_winners(t: Tally)
    requires
        distinct_keys(t),
    ensures
        winners_spec(t).no_duplicates(),
        forall|x: Seq<char>| #[trigger]
            winners_spec(t).contains(x) ==> forall|n: Seq<char>| count_in(t, n) <= count_in(t, x),
        forall|i: int| 0 <= i < t.len() && t[i].1 == max_count(t) ==> #[trigger]
            winners_spec(t).contains(t[i].0),
        t.len() > 0 ==> winners_spec(t).len() > 0,
{
    lemma_max_count(t);
    lemma_parties_with_count(t, max_count(t));
    assert forall|x: Seq<char>| #[trigger] winners_spec(t).contains(x) implies forall|n: Seq<char>|
        count_in(t, n) <= count_in(t, x) by {
        let i = choose|i: int| 0 <= i < t.len() && t[i].0 == x && t[i].1 == max_count(t);
        lemma_index_of_key(t, x);
        assert(index_of_key(t, x) == i) by {
            if index_of_key(t, x) < i {
                assert(t[index_of_key(t, x)].0 == x);
            }
        }
        assert forall|n: Seq<char>| count_in(t, n) <= count_in(t, x) by {
            lemma_index_of_key(t, n);
        }
    }
    if t.len() > 0 {
        let i = choose|i: int| 0 <= i < t.len() && t[i].1 == max_count(t);
        assert(winners_spec(t).contains(t[i].0));
    }
}

// ---------------------------------------------------------------- a whole game

/// A round of a game: the player's answer and how the parties voted.
pub type Round = (Vote, Seq<(Seq<char>, Vote)>);

/// The tally after the rounds of `rounds`, from an empty one.
pub open spec fn tally_after(rounds: Seq<Round>) -> Tally
    decreases rounds.len(),
{
    if rounds.len() == 0 {
        Seq::empty()
    } else {
        resolve_spec(tally_after(rounds.drop_last()), rounds.last().0, rounds.last().1)
    }
}

/// How often `name` voted like the player in the rounds of `rounds`.
pub open spec fn times_alike(rounds: Seq<Round>, name: Seq<char>) -> nat
    decreases rounds.len(),
{
    if rounds.len() == 0 {
        0
    } else {
        times_alike(rounds.drop_last(), name) + occurrences(rounds.last().1, rounds.last().0, name)
    }
}

/// No party voted like the player more than 255 times.
pub open spec fn game_fits(rounds: Seq<Round>) -> bool {
    forall|name: Seq<char>| #[trigger] times_alike(rounds, name) <= 255
}

/// After any rounds, the tally counts for each party how often it voted like the
/// player, and has no party twice.
pub proof fn lemma_tally_after(rounds: Seq<Round>)
    requires
        game_fits(rounds),
    ensures
        distinct_keys(tally_after(rounds)),
        forall|name: Seq<char>| #[trigger] count_in(tally_after(rounds), name) == times_alike(rounds, name),
    decreases rounds.len(),
{
    if rounds.len() == 0 {
        assert forall|name: Seq<char>| #[trigger] count_in(tally_after(rounds), name) == times_alike(rounds, name) by {
            lemma_index_of_key(Seq::<(Seq<char>, u8)>::empty(), name);
        }
    } else {
        let prev = rounds.drop_last();
        assert forall|name: Seq<char>| #[trigger] times_alike(prev, name) <= 255 by {
            assert(times_alike(rounds, name) <= 255);
        }
        lemma_tally_after(prev);
        let (vote, pvs) = rounds.last();
        assert forall|name: Seq<char>| #[trigger] count_in(tally_after(prev), name) + occurrences(pvs, vote, name) <= 255 by {
            assert(times_alike(rounds, name) <= 255);
        }
        lemma_resolve_counts(tally_after(prev), vote, pvs);
    }
}

/// The favourite parties after a game are exactly the parties that voted like the
/// player most often, each listed once: every favourite voted like the player at
/// least as often as any party, and every party that did so, at least once, is a
/// favourite.
pub proof fn lemma_favourites_voted_most_alike(rounds: Seq<Round>)
    requires
        game_fits(rounds),
    ensures
        winners_spec(tally_after(rounds)).no_duplicates(),
        forall|x: Seq<char>| #[trigger] winners_spec(tally_after(rounds)).contains(x) ==> forall|n: Seq<char>|
            times_alike(rounds, n) <= times_alike(rounds, x),
        forall|x: Seq<char>| times_alike(rounds, x) > 0 && (forall|n: Seq<char>|
            times_alike(rounds, n) <= times_alike(rounds, x)) ==> #[trigger] winners_spec(
            tally_after(rounds),
        ).contains(x),
{
    let t = tally_after(rounds);
    lemma_tally_after(rounds);
    lemma_winners(t);
    lemma_max_count(t);
    assert forall|x: Seq<char>| #[trigger] winners_spec(t).contains(x) implies forall|n: Seq<char>|
        times_alike(rounds, n) <= times_alike(rounds, x) by {
        assert forall|n: Seq<char>| times_alike(rounds, n) <= times_alike(rounds, x) by {
            assert(count_in(t, n) <= count_in(t, x));
            assert(count_in(t, n) == times_alike(rounds, n));
            assert(count_in(t, x) == times_alike(rounds, x));
        }
    }
    assert forall|x: Seq<char>| times_alike(rounds, x) > 0 && (forall|n: Seq<char>|
        times_alike(rounds, n) <= times_alike(rounds, x)) implies #[trigger] winners_spec(t).contains(x) by {
        assert(count_in(t, x) == times_alike(rounds, x));
        lemma_index_of_key(t, x);
        let i = index_of_key(t, x);
        assert(i < t.len());
        let j = choose|j: int| 0 <= j < t.len() && t[j].1 == max_count(t);
        lemma_index_of_key_at(t, t[j].0, j);
        assert(count_in(t, t[j].0) == times_alike(rounds, t[j].0));
        assert(times_alike(rounds, t[j].0) <= times_alike(rounds, x));
        assert(t[i].1 == max_count(t));
    }
}

// ---------------------------------------------------------------- the tally

/// How often the player voted like each party.
#[derive(Debug)]
pub struct Favourites {
    entries: Vec<(String, u8)>,
}

impl View for Favourites {
    type V = Tally;

    closed spec fn view(&self) -> Tally {
        self.entries@.map_values(|e: (String, u8)| (e.0@, e.1))
    }
}

impl Favourites {
    /// No party has two entries.
    pub open spec fn wf(&self) -> bool {
        distinct_keys(self@)
    }

    /// An empty tally.
    pub fn new() -> (f: Favourites)
        ensures
            f@ == Seq::<(Seq<char>, u8)>::empty(),
            f.wf(),
    {
        let f = Favourites { entries: Vec::new() };
        assert(f@ =~= Seq::<(Seq<char>, u8)>::empty());
        f
    }

    fn find(&self, name: &String) -> (r: usize)
        ensures
            r == index_of_key(self@, name@),
    {
        let mut i: usize = 0;
        while i < self.entries.len()
            invariant
                i <= self@.len(),
                self@.len() == self.entries@.len(),
                forall|k: int| 0 <= k < i ==> self@[k].0 != name@,
            decreases self.entries@.len() - i,
        {
            assert(self@[i as int].0 == self.entries@[i as int].0@);
            if self.entries[i].0 == *name {
                proof {
                    lemma_index_of_key_at(self@, name@, i as int);
                }
                return i;
            }
            i = i + 1;
        }
        proof {
            lemma_index_of_key_at(self@, name@, i as int);
        }
        i
    }

    /// Counts `name` once more.
    fn bump(&mut self, name: &String)
        requires
            old(self).wf(),
            count_in(old(self)@, name@) < 255,
        ensures
            final(self)@ == bump(old(self)@, name@),
            final(self).wf(),
    {
        proof {
            lemma_bump(self@, name@);
            lemma_index_of_key(self@, name@);
        }
        let i = self.find(name);
        if i < self.entries.len() {
            let c = self.entries[i].1;
            assert(c == self@[i as int].1);
            self.entries.set(i, (name.clone(), c + 1));
        } else {
            self.entries.push((name.clone(), 1));
        }
        assert(self@ =~= bump(old(self)@, name@));
    }

    /// Counts, in order, each party of `parties_votes` that voted `vote`.
    pub fn resolve_favourites(&mut self, vote: &Vote, parties_votes: &Vec<PartyVote>)
        requires
            old(self).wf(),
            fits_in_tally(old(self)@, *vote, party_votes_view(parties_votes@)),
        ensures
            final(self).wf(),
            final(self)@ == resolve_spec(old(self)@, *vote, party_votes_view(parties_votes@)),
    {
        let ghost t0 = self@;
        let ghost pvs = party_votes_view(parties_votes@);
        let mut i: usize = 0;
        proof {
            assert(pvs.take(0) =~= Seq::<(Seq<char>, Vote)>::empty());
        }
        while i < parties_votes.len()
            invariant
                i <= parties_votes@.len(),
                pvs == party_votes_view(parties_votes@),
                pvs.len() == parties_votes@.len(),
                distinct_keys(t0),
                fits_in_tally(t0, *vote, pvs),
                self.wf(),
                self@ == resolve_spec(t0, *vote, pvs.take(i as int)),
                forall|n: Seq<char>| #[trigger]
                    count_in(self@, n) == count_in(t0, n) + occurrences(pvs.take(i as int), *vote, n),
            decreases parties_votes@.len() - i,
        {
            let pv = &parties_votes[i];
            assert(pvs.take(i + 1).drop_last() =~= pvs.take(i as int));
            assert(pvs.take(i + 1).last() == pv@);
            if pv.vote == *vote {
                proof {
                    let name = pv.party.name@;
                    lemma_occurrences_prefix(pvs, *vote, name, i + 1);
                    assert(count_in(t0, name) + occurrences(pvs, *vote, name) <= 255);
                    lemma_bump(self@, name);
                }
                self.bump(&pv.party.name);
            }
            i = i + 1;
        }
        assert(pvs.take(i as int) =~= pvs);
    }

    /// Whether counting, in order, each party of `parties_votes` that voted `vote`
    /// keeps every count within `u8`.
    pub fn can_resolve(&self, vote: &Vote, parties_votes: &Vec<PartyVote>) -> (r: bool)
        requires
            self.wf(),
        ensures
            r == fits_in_tally(self@, *vote, party_votes_view(parties_votes@)),
    {
        let ghost pvs = party_votes_view(parties_votes@);
        let mut i: usize = 0;
        while i < parties_votes.len()
            invariant
                i <= parties_votes@.len(),
                pvs == party_votes_view(parties_votes@),
                pvs.len() == parties_votes@.len(),
                forall|k: int| 0 <= k < i && #[trigger] pvs[k].1 == *vote ==> count_in(self@, pvs[k].0) + occurrences(pvs, *vote, pvs[k].0) <= 255,
            decreases parties_votes@.len() - i,
        {
            let pv = &parties_votes[i];
            assert(pvs[i as int] == pv@);
            if pv.vote == *vote {
                let mut n: u64 = match self.get(&pv.party.name) {
                    Some(c) => c as u64,
                    None => 0,
                };
                let mut j: usize = 0;
                assert(pvs.take(0) =~= Seq::<(Seq<char>, Vote)>::empty());
                while j < parties_votes.len()
                    invariant
                        j <= parties_votes@.len(),
                        pvs == party_votes_view(parties_votes@),
                        pvs.len() == parties_votes@.len(),
                        i < pvs.len(),
                        pv@ == pvs[i as int],
                        n == count_in(self@, pv@.0) + occurrences(pvs.take(j as int), *vote, pv@.0),
                        n <= 255,
                    decreases parties_votes@.len() - j,
                {
                    assert(pvs.take(j + 1).drop_last() =~= pvs.take(j as int));
                    assert(pvs[j as int] == parties_votes@[j as int]@);
                    if parties_votes[j].vote == *vote && parties_votes[j].party.name == pv.party.name {
                        n = n + 1;
                        if n > 255 {
                            proof {
                                lemma_occurrences_prefix(pvs, *vote, pv@.0, j + 1);
                                assert(!(count_in(self@, pv@.0) + occurrences(pvs, *vote, pv@.0) <= 255));
                            }
                            return false;
                        }
                    }
                    j = j + 1;
                }
                assert(pvs.take(j as int) =~= pvs);
            }
            i = i + 1;
        }
        proof {
            assert forall|name: Seq<char>| #[trigger] count_in(self@, name) + occurrences(pvs, *vote, name) <= 255 by {
                if occurrences(pvs, *vote, name) > 0 {
                    let k = lemma_occurrence_index(pvs, *vote, name);
                    assert(pvs[k].1 == *vote);
                } else {
                    lemma_count_bound(self@, name);
                }
            }
        }
        true
    }

    fn get(&self, name: &String) -> (r: Option<u8>)
        ensures
            r == lookup(self@, name@),
    {
        proof {
            lemma_index_of_key(self@, name@);
        }
        let i = self.find(name);
        if i < self.entries.len() {
            assert(self@[i as int].1 == self.entries@[i as int].1);
            Some(self.entries[i].1)
        } else {
            None
        }
    }

    /// The parties with the largest count, in tally order.
    pub fn find_winners(&self) -> (w: Vec<String>)
        ensures
            w@.map_values(|s: String| s@) == winners_spec(self@),
    {
        let mut max: u8 = 0;
        let mut i: usize = 0;
        while i < self.entries.len()
            invariant
                i <= self.entries@.len(),
                self@.len() == self.entries@.len(),
                max == max_count(self@.take(i as int)),
            decreases self.entries@.len() - i,
        {
            assert(self@.take(i + 1).drop_last() =~= self@.take(i as int));
            assert(self@[i as int].1 == self.entries@[i as int].1);
            if self.entries[i].1 > max {
                max = self.entries[i].1;
            }
            i = i + 1;
        }
        assert(self@.take(i as int) =~= self@);
        let mut w: Vec<String> = Vec::new();
        let mut j: usize = 0;
        while j < self.entries.len()
            invariant
                j <= self.entries@.len(),
                self@.len() == self.entries@.len(),
                max == max_count(self@),
                w@.map_values(|s: String| s@) == parties_with_count(self@.take(j as int), max),
            decreases self.entries@.len() - j,
        {
            assert(self@.take(j + 1).drop_last() =~= self@.take(j as int));
            assert(self@[j as int] == (self.entries@[j as int].0@, self.entries@[j as int].1));
            if self.entries[j].1 == max {
                w.push(self.entries[j].0.clone());
                assert(w@.map_values(|s: String| s@) =~= parties_with_count(self@.take(j as int), max).push(self@[j as int].0));
            }
            j = j + 1;
        }
        assert(self@.take(j as int) =~= self@);
        w
    }
}

} // verus!
