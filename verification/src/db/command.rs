//! The statements that store a seating, and their parameters.

use vstd::prelude::*;
use crate::domain::data::{Vote, VotingResult, party_votes_view, vote_from_num_spec, vote_num_spec};
use crate::error::PopisError;
use crate::keyed::{
    distinct_keys, index_of_key, insert_key, lookup, lemma_index_of_key, lemma_index_of_key_at,
    lemma_insert_key,
};
use crate::text::{decimal_spec, push_decimal};

verus! {

// ---------------------------------------------------------------- party ids

/// `t` after mapping, in order, each name of `rows` to its id.
pub open spec fn insert_all(t: Seq<(Seq<char>, i32)>, rows: Seq<(Seq<char>, i32)>) -> Seq<(Seq<char>, i32)>
    decreases rows.len(),
{
    if rows.len() == 0 {
        t
    } else {
        let prev = insert_all(t, rows.drop_last());
        insert_key(prev, rows.last().0, rows.last().1)
    }
}

/// The first `min(names.len(), ids.len())` names paired with the ids, in order.
pub open spec fn zip_names(names: Seq<Seq<char>>, ids: Seq<i32>) -> Seq<(Seq<char>, i32)> {
    let n = if names.len() <= ids.len() {
        names.len()
    } else {
        ids.len()
    };
    Seq::new(n, |i: int| (names[i], ids[i]))
}

/// The database ids of parties, by name.
#[derive(Debug)]
pub struct PartyIds {
    entries: Vec<(String, i32)>,
}

impl View for PartyIds {
    type V = Seq<(Seq<char>, i32)>;

    closed spec fn view(&self) -> Seq<(Seq<char>, i32)> {
        self.entries@.map_values(|e: (String, i32)| (e.0@, e.1))
    }
}

impl PartyIds {
    /// No name has two entries.
    pub open spec fn wf(&self) -> bool {
        distinct_keys(self@)
    }

    /// No parties.
    pub fn new() -> (p: PartyIds)
        ensures
            p@ == Seq::<(Seq<char>, i32)>::empty(),
            p.wf(),
    {
        let p = PartyIds { entries: Vec::new() };
        assert(p@ =~= Seq::<(Seq<char>, i32)>::empty());
        p
    }

    /// The parties of `rows`, as (name, id) rows of the database; of two rows for one
    /// name the later one counts.
    pub fn from_rows(rows: Vec<(String, i32)>) -> (p: PartyIds)
        ensures
            p.wf(),
            p@ == insert_all(
                Seq::empty(),
                rows@.map_values(|r: (String, i32)| (r.0@, r.1)),
            ),
    {
        let ghost rv = rows@.map_values(|r: (String, i32)| (r.0@, r.1));
        let mut p = PartyIds::new();
        let mut i: usize = 0;
        assert(rv.take(0) =~= Seq::<(Seq<char>, i32)>::empty());
        while i < rows.len()
            invariant
                i <= rows@.len(),
                rv == rows@.map_values(|r: (String, i32)| (r.0@, r.1)),
                p.wf(),
                p@ == insert_all(Seq::empty(), rv.take(i as int)),
            decreases rows@.len() - i,
        {
            assert(rv.take(i + 1).drop_last() =~= rv.take(i as int));
            p.insert(rows[i].0.clone(), rows[i].1);
            i = i + 1;
        }
        assert(rv.take(i as int) =~= rv);
        p
    }

    fn find(&self, name: &String) -> (r: usize)
        ensures
            r == index_of_key(self@, name@),
    {
        let mut i: usize = 0;
        while i < self.entries.len()
            invariant
                i <= self@.len(),
                self@.len() == self.entries@.len(),
                forall|k: int| 0 <= k < i ==> self@[k].0 != name@,
            decreases self.entries@.len() - i,
        {
            assert(self@[i as int].0 == self.entries@[i as int].0@);
            if self.entries[i].0 == *name {
                proof {
                    lemma_index_of_key_at(self@, name@, i as int);
                }
                return i;
            }
            i = i + 1;
        }
        proof {
            lemma_index_of_key_at(self@, name@, i as int);
        }
        i
    }

    /// The id of `name`.
    pub fn get(&self, name: &String) -> (r: Option<i32>)
        ensures
            r == lookup(self@, name@),
    {
        proof {
            lemma_index_of_key(self@, name@);
        }
        let i = self.find(name);
        if i < self.entries.len() {
            assert(self@[i as int].1 == self.entries@[i as int].1);
            Some(self.entries[i].1)
        } else {
            None
        }
    }

    /// Whether `name` has an id.
    pub fn contains_key(&self, name: &String) -> (r: bool)
        ensures
            r == lookup(self@, name@) is Some,
    {
        self.get(name).is_some()
    }

    /// Maps `name` to `id`, replacing an earlier id of it.
    pub fn insert(&mut self, name: String, id: i32)
        requires
            old(self).wf(),
        ensures
            final(self).wf(),
            final(self)@ == insert_key(old(self)@, name@, id),
    {
        proof {
            lemma_insert_key(self@, name@, id);
            lemma_index_of_key(self@, name@);
        }
        let i = self.find(&name);
        if i < self.entries.len() {
            self.entries.set(i, (name, id));
        } else {
            self.entries.push((name, id));
        }
        assert(self@ =~= insert_key(old(self)@, name@, id));
    }
}

/// The names of `names` that have no id in `t`, in order.
pub open spec fn unknown_parties(names: Seq<Seq<char>>, t: Seq<(Seq<char>, i32)>) -> Seq<Seq<char>>
    decreases names.len(),
{
    if names.len() == 0 {
        Seq::empty()
    } else {
        let prev = unknown_parties(names.drop_last(), t);
        if lookup(t, names.last()) is Some {
            prev
        } else {
            prev.push(names.last())
        }
    }
}

/// The parties of `parties` that are not yet in the database, in order.
pub fn missing_parties(parties: Vec<String>, known: &PartyIds) -> (r: Vec<String>)
    ensures
        r@.map_values(|s: String| s@) == unknown_parties(parties@.map_values(|s: String| s@), known@),
{
    let ghost names = parties@.map_values(|s: String| s@);
    let mut r: Vec<String> = Vec::new();
    let mut i: usize = 0;
    assert(names.take(0) =~= Seq::<Seq<char>>::empty());
    while i < parties.len()
        invariant
            i <= parties@.len(),
            names == parties@.map_values(|s: String| s@),
            r@.map_values(|s: String| s@) == unknown_parties(names.take(i as int), known@),
        decreases parties@.len() - i,
    {
        assert(names.take(i + 1).drop_last() =~= names.take(i as int));
        if !known.contains_key(&parties[i]) {
            r.push(parties[i].clone());
            assert(r@.map_values(|s: String| s@) =~= unknown_parties(names.take(i as int), known@).push(names[i as int]));
        }
        i = i + 1;
    }
    assert(names.take(i as int) =~= names);
    r
}

/// Records the ids that the database gave to newly inserted parties: the i-th name
/// of `parties` gets the i-th id of `ids`, as far as both go.
pub fn record_party_ids(cache: &mut PartyIds, parties: Vec<String>, ids: Vec<i32>)
    requires
        old(cache).wf(),
    ensures
        final(cache).wf(),
        final(cache)@ == insert_all(
            old(cache)@,
            zip_names(parties@.map_values(|s: String| s@), ids@),
        ),
{
    let ghost z = zip_names(parties@.map_values(|s: String| s@), ids@);
    let n = if parties.len() <= ids.len() {
        parties.len()
    } else {
        ids.len()
    };
    let mut i: usize = 0;
    assert(z.take(0) =~= Seq::<(Seq<char>, i32)>::empty());
    while i < n
        invariant
            i <= n,
            n == z.len(),
            n <= parties@.len(),
            n <= ids@.len(),
            z == zip_names(parties@.map_values(|s: String| s@), ids@),
            cache.wf(),
            cache@ == insert_all(old(cache)@, z.take(i as int)),
        decreases n - i,
    {
        assert(z.take(i + 1).drop_last() =~= z.take(i as int));
        assert(z[i as int] == (parties@[i as int]@, ids@[i as int]));
        cache.insert(parties[i].clone(), ids[i]);
        i = i + 1;
    }
    assert(z.take(i as int) =~= z);
}

/// After the ids of new parties are recorded, each of them has its id.
pub proof fn lemma_recorded_ids(t: Seq<(Seq<char>, i32)>, rows: Seq<(Seq<char>, i32)>)
    requires
        distinct_keys(t),
    ensures
        distinct_keys(insert_all(t, rows)),
        forall|i: int| 0 <= i < rows.len() && (forall|j: int| i < j < rows.len() ==> rows[j].0 != rows[i].0)
            ==> #[trigger] lookup(insert_all(t, rows), rows[i].0) == Some(rows[i].1),
    decreases rows.len(),
{
    if rows.len() > 0 {
        let p = rows.drop_last();
        lemma_recorded_ids(t, p);
        lemma_insert_key(insert_all(t, p), rows.last().0, rows.last().1);
        assert forall|i: int| 0 <= i < rows.len() && (forall|j: int| i < j < rows.len() ==> rows[j].0 != rows[i].0)
            implies #[trigger] lookup(insert_all(t, rows), rows[i].0) == Some(rows[i].1) by {
            if i < rows.len() - 1 {
                assert(rows[i] == p[i]);
                assert(rows[rows.len() - 1].0 != rows[i].0);
                assert forall|j: int| i < j < p.len() implies p[j].0 != p[i].0 by {
                    assert(p[j] == rows[j]);
                }
            }
        }
    }
}

// ---------------------------------------------------------------- statements

/// The parameter placeholder `($i)`.
pub open spec fn party_placeholder(i: nat) -> Seq<char> {
    "($"@ + decimal_spec(i) + ")"@
}

/// `($1),($2),...,($n)`.
pub open spec fn party_placeholders_spec(n: nat) -> Seq<char>
    decreases n,
{
    if n == 0 {
        Seq::empty()
    } else if n == 1 {
        party_placeholder(1)
    } else {
        party_placeholders_spec((n - 1) as nat) + ","@ + party_placeholder(n)
    }
}

/// The statement inserting `n` parties and returning their ids.
pub open spec fn insert_parties_query_spec(n: nat) -> Seq<char> {
    "INSERT INTO party (name) VALUES "@ + party_placeholders_spec(n) + " RETURNING id;"@
}

/// The placeholders of the `i`-th vote row: `($3i+1,$3i+2,$3i+3)`.
pub open spec fn vote_placeholder(i: nat) -> Seq<char> {
    "($"@ + decimal_spec(3 * i + 1) + ",$"@ + decimal_spec(3 * i + 2) + ",$"@ + decimal_spec(3 * i + 3)
        + ")"@
}

/// The placeholders of `n` vote rows, separated by commas.
pub open spec fn vote_placeholders_spec(n: nat) -> Seq<char>
    decreases n,
{
    if n == 0 {
        Seq::empty()
    } else if n == 1 {
        vote_placeholder(0)
    } else {
        vote_placeholders_spec((n - 1) as nat) + ","@ + vote_placeholder((n - 1) as nat)
    }
}

/// The statement inserting `n` votes of parties in one voting.
pub open spec fn insert_votes_query_spec(n: nat) -> Seq<char> {
    "INSERT INTO vote (voting_id, party_id, result) VALUES "@ + vote_placeholders_spec(n) + ";"@
}

/// `($1),($2),...,($n)`: the placeholders of `n` party names.
pub fn party_placeholders(n: usize) -> (s: String)
    ensures
        s@ == party_placeholders_spec(n as nat),
{
    let mut s = String::new();
    let mut i: usize = 0;
    while i < n
        invariant
            i <= n,
            s@ == party_placeholders_spec(i as nat),
        decreases n - i,
    {
        i = i + 1;
        if i > 1 {
            s.append(",");
        }
        s.append("($");
        push_decimal(&mut s, i as u64);
        s.append(")");
        proof {
            if i == 1 {
                assert(s@ =~= party_placeholder(1));
            } else {
                assert(s@ =~= party_placeholders_spec((i - 1) as nat) + ","@ + party_placeholder(i as nat));
            }
        }
    }
    s
}

/// The statement inserting `n` parties by name and returning their ids.
pub fn insert_parties_query(n: usize) -> (s: String)
    ensures
        s@ == insert_parties_query_spec(n as nat),
{
    let mut s = String::from_str("INSERT INTO party (name) VALUES ");
    let values = party_placeholders(n);
    s.append(values.as_str());
    s.append(" RETURNING id;");
    s
}

/// The placeholders of `n` vote rows of three parameters each.
pub fn vote_placeholders(n: usize) -> (s: String)
    requires
        3 * n + 3 <= usize::MAX,
    ensures
        s@ == vote_placeholders_spec(n as nat),
{
    let mut s = String::new();
    let mut i: usize = 0;
    while i < n
        invariant
            i <= n,
            3 * n + 3 <= usize::MAX,
            s@ == vote_placeholders_spec(i as nat),
        decreases n - i,
    {
        if i > 0 {
            s.append(",");
        }
        let k = 3 * i;
        s.append("($");
        push_decimal(&mut s, (k + 1) as u64);
        s.append(",$");
        push_decimal(&mut s, (k + 2) as u64);
        s.append(",$");
        push_decimal(&mut s, (k + 3) as u64);
        s.append(")");
        proof {
            if i == 0 {
                assert(s@ =~= vote_placeholder(0));
            } else {
                assert(s@ =~= vote_placeholders_spec(i as nat) + ","@ + vote_placeholder(i as nat));
            }
        }
        i = i + 1;
    }
    s
}

/// The statement inserting the votes of `n` parties in one voting.
pub fn insert_votes_query(n: usize) -> (s: String)
    requires
        3 * n + 3 <= usize::MAX,
    ensures
        s@ == insert_votes_query_spec(n as nat),
{
    let mut s = String::from_str("INSERT INTO vote (voting_id, party_id, result) VALUES ");
    let values = vote_placeholders(n);
    s.append(values.as_str());
    s.append(";");
    s
}

/// The rows (voting id, party id, vote number) of the votes `pvs` in voting
/// `voting_id`, or `None` when a party has no id in `t`.
pub open spec fn vote_rows_spec(voting_id: i32, t: Seq<(Seq<char>, i32)>, pvs: Seq<(Seq<char>, Vote)>) -> Option<
    Seq<(i32, i32, i32)>,
>
    decreases pvs.len(),
{
    if pvs.len() == 0 {
        Some(Seq::empty())
    } else {
        match vote_rows_spec(voting_id, t, pvs.drop_last()) {
            Some(rows) => match lookup(t, pvs.last().0) {
                Some(id) => Some(rows.push((voting_id, id, vote_num_spec(pvs.last().1)))),
                None => None,
            },
            None => None,
        }
    }
}

/// The message of the error for a party that was not stored before its votes.
pub open spec fn missing_party_message() -> Seq<char> {
    "All parties should be in cache already."@
}

/// The parameters of the votes of a voting result, row by row; an error when a
/// party has no id yet.
pub fn vote_rows(voting_id: i32, parties: &PartyIds, result: &VotingResult) -> (r: Result<
    Vec<(i32, i32, i32)>,
    PopisError,
>)
    ensures
        match r {
            Ok(rows) => vote_rows_spec(voting_id, parties@, party_votes_view(result.parties_votes@))
                == Some(rows@),
            Err(e) => {
                &&& vote_rows_spec(voting_id, parties@, party_votes_view(result.parties_votes@)) is None
                &&& e matches PopisError::LogicError(m) && m@ == missing_party_message()
            },
        },
{
    let pvs = &result.parties_votes;
    let ghost pv = party_votes_view(pvs@);
    let mut rows: Vec<(i32, i32, i32)> = Vec::new();
    let mut i: usize = 0;
    assert(pv.take(0) =~= Seq::<(Seq<char>, Vote)>::empty());
    while i < pvs.len()
        invariant
            i <= pvs@.len(),
            pv == party_votes_view(pvs@),
            pvs@ == result.parties_votes@,
            vote_rows_spec(voting_id, parties@, pv.take(i as int)) == Some(rows@),
        decreases pvs@.len() - i,
    {
        assert(pv.take(i + 1).drop_last() =~= pv.take(i as int));
        assert(pv.take(i + 1).last() == pvs@[i as int]@);
        match parties.get(&pvs[i].party.name) {
            Some(id) => {
                rows.push((voting_id, id, pvs[i].vote.num()));
            },
            None => {
                proof {
                    assert(vote_rows_spec(voting_id, parties@, pv.take(i + 1)) is None);
                    lemma_vote_rows_stays_none(voting_id, parties@, pv, i + 1);
                }
                let m = String::from_str("All parties should be in cache already.");
                return Err(PopisError::LogicError(m));
            },
        }
        i = i + 1;
    }
    assert(pv.take(i as int) =~= pv);
    Ok(rows)
}

proof fn lemma_vote_rows_stays_none(voting_id: i32, t: Seq<(Seq<char>, i32)>, pvs: Seq<(Seq<char>, Vote)>, i: int)
    requires
        0 <= i <= pvs.len(),
        vote_rows_spec(voting_id, t, pvs.take(i)) is None,
    ensures
        vote_rows_spec(voting_id, t, pvs) is None,
    decreases pvs.len() - i,
{
    if i < pvs.len() {
        assert(pvs.take(i + 1).drop_last() =~= pvs.take(i));
        lemma_vote_rows_stays_none(voting_id, t, pvs, i + 1);
    } else {
        assert(pvs.take(i) =~= pvs);
    }
}

/// The number that stores the vote `v` in the database: 0 for, 1 against, 2 held.
pub open spec fn stored_vote_number(v: Vote) -> i32 {
    match v {
        Vote::For => 0i32,
        Vote::Against => 1i32,
        Vote::Hold => 2i32,
    }
}

/// The votes of a voting are stored one row per party vote, in order, when every
/// party has an id, and not at all otherwise; the `k`-th row holds the voting's id,
/// the id of the `k`-th party and the number of its vote, which reads back as that
/// same vote.
pub proof fn lemma_vote_rows_one_per_party(voting_id: i32, t: Seq<(Seq<char>, i32)>, pvs: Seq<(Seq<char>, Vote)>)
    ensures
        vote_rows_spec(voting_id, t, pvs) is Some <==> forall|k: int| 0 <= k < pvs.len()
            ==> #[trigger] lookup(t, pvs[k].0) is Some,
        vote_rows_spec(voting_id, t, pvs) matches Some(rows) ==> {
            &&& rows.len() == pvs.len()
            &&& forall|k: int| #![trigger rows[k]] 0 <= k < pvs.len() ==> {
                &&& rows[k].0 == voting_id
                &&& lookup(t, pvs[k].0) == Some(rows[k].1)
                &&& rows[k].2 == stored_vote_number(pvs[k].1)
                &&& vote_from_num_spec(rows[k].2 as int) == pvs[k].1
            }
        },
    decreases pvs.len(),
{
    if pvs.len() > 0 {
        let init = pvs.drop_last();
        lemma_vote_rows_one_per_party(voting_id, t, init);
        assert forall|k: int| 0 <= k < init.len() implies init[k] == pvs[k] by {}
        if vote_rows_spec(voting_id, t, init) is Some && lookup(t, pvs.last().0) is Some {
            let rows = vote_rows_spec(voting_id, t, pvs)->Some_0;
            let prev = vote_rows_spec(voting_id, t, init)->Some_0;
            assert(rows == prev.push((voting_id, lookup(t, pvs.last().0)->Some_0, vote_num_spec(pvs.last().1))));
            assert forall|k: int| #![trigger rows[k]] 0 <= k < pvs.len() implies {
                &&& rows[k].0 == voting_id
                &&& lookup(t, pvs[k].0) == Some(rows[k].1)
                &&& rows[k].2 == stored_vote_number(pvs[k].1)
                &&& vote_from_num_spec(rows[k].2 as int) == pvs[k].1
            } by {
                if k < init.len() {
                    assert(init[k] == pvs[k]);
                    assert(rows[k] == prev[k]);
                    assert(prev[k].0 == voting_id);
                } else {
                    assert(pvs[k] == pvs.last());
                }
            }
        }
        if !(forall|k: int| 0 <= k < pvs.len() ==> #[trigger] lookup(t, pvs[k].0) is Some) {
            let k = choose|k: int| 0 <= k < pvs.len() && !(#[trigger] lookup(t, pvs[k].0) is Some);
            if k < init.len() {
                assert(init[k] == pvs[k]);
            }
        } else {
            assert forall|k: int| 0 <= k < init.len() implies #[trigger] lookup(t, init[k].0) is Some by {
                assert(init[k] == pvs[k]);
                assert(lookup(t, pvs[k].0) is Some);
            }
        }
    }
}

} // verus!
