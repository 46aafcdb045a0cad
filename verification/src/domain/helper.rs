//! Questions about a whole seating.

use vstd::prelude::*;
use crate::domain::data::{PartyVote, Seating, Voting};
use crate::error::PopisError;

verus! {

/// The names of the parties of `pvs`, in order.
pub open spec fn party_names(pvs: Seq<PartyVote>) -> Seq<Seq<char>> {
    pvs.map_values(|pv: PartyVote| pv.party.name@)
}

/// The names of all parties that voted in `vs`, voting after voting.
pub open spec fn names_in_votings(vs: Seq<Voting>) -> Seq<Seq<char>>
    decreases vs.len(),
{
    if vs.len() == 0 {
        Seq::empty()
    } else {
        names_in_votings(vs.drop_last()) + party_names(vs.last().voting_result.parties_votes@)
    }
}

/// `s` with every element after its first occurrence left out.
pub open spec fn distinct_spec(s: Seq<Seq<char>>) -> Seq<Seq<char>>
    decreases s.len(),
{
    if s.len() == 0 {
        Seq::empty()
    } else {
        let d = distinct_spec(s.drop_last());
        if d.contains(s.last()) {
            d
        } else {
            d.push(s.last())
        }
    }
}

/// Leaving out repetitions keeps each element once and adds none.
pub proof fn lemma_distinct(s: Seq<Seq<char>>)
    ensures
        distinct_spec(s).no_duplicates(),
        forall|x: Seq<char>| #[trigger] distinct_spec(s).contains(x) <==> s.contains(x),
    decreases s.len(),
{
    if s.len() > 0 {
        let p = s.drop_last();
        lemma_distinct(p);
        let d = distinct_spec(p);
        assert forall|x: Seq<char>| #[trigger] distinct_spec(s).contains(x) <==> s.contains(x) by {
            if s.contains(x) {
                let i = choose|i: int| 0 <= i < s.len() && s[i] == x;
                if i < s.len() - 1 {
                    assert(p[i] == x);
                    assert(p.contains(x));
                    assert(d.contains(x));
                    let k = choose|k: int| 0 <= k < d.len() && d[k] == x;
                    if !d.contains(s.last()) {
                        assert(d.push(s.last())[k] == x);
                    }
                } else if !d.contains(s.last()) {
                    assert(d.push(s.last())[d.len() as int] == x);
                }
            }
            if distinct_spec(s).contains(x) {
                if d.contains(x) {
                    let j = choose|j: int| 0 <= j < p.len() && p[j] == x;
                    assert(s[j] == x);
                } else {
                    assert(x == s.last());
                    assert(s[s.len() - 1] == x);
                }
            }
        }
    }
}

fn contains_name(names: &Vec<String>, name: &String) -> (r: bool)
    ensures
        r == names@.map_values(|s: String| s@).contains(name@),
{
    let ghost v = names@.map_values(|s: String| s@);
    let mut i: usize = 0;
    while i < names.len()
        invariant
            i <= names@.len(),
            v == names@.map_values(|s: String| s@),
            forall|k: int| 0 <= k < i ==> v[k] != name@,
        decreases names@.len() - i,
    {
        if names[i] == *name {
            assert(v[i as int] == name@);
            return true;
        }
        i = i + 1;
    }
    false
}

/// The names of the parties that voted in any voting of the seating, each once,
/// in the order in which they first appear (always `Ok`).
pub fn parties_in_seating(seating: &Seating) -> (r: Result<Vec<String>, PopisError>)
    ensures
        r matches Ok(v) && v@.map_values(|s: String| s@) == distinct_spec(
            names_in_votings(seating.votings@),
        ),
{
    let ghost vs = seating.votings@;
    let mut acc: Vec<String> = Vec::new();
    let mut i: usize = 0;
    assert(vs.take(0) =~= Seq::<Voting>::empty());
    while i < seating.votings.len()
        invariant
            i <= vs.len(),
            vs == seating.votings@,
            acc@.map_values(|s: String| s@) == distinct_spec(names_in_votings(vs.take(i as int))),
        decreases vs.len() - i,
    {
        let pvs = &seating.votings[i].voting_result.parties_votes;
        let ghost before = names_in_votings(vs.take(i as int));
        let ghost names = party_names(pvs@);
        let mut j: usize = 0;
        assert(before + names.take(0) =~= before);
        while j < pvs.len()
            invariant
                j <= pvs@.len(),
                names == party_names(pvs@),
                acc@.map_values(|s: String| s@) == distinct_spec(before + names.take(j as int)),
            decreases pvs@.len() - j,
        {
            let name = &pvs[j].party.name;
            let ghost p = before + names.take(j + 1);
            assert(p.drop_last() =~= before + names.take(j as int));
            assert(p.last() == name@);
            if !contains_name(&acc, name) {
                acc.push(name.clone());
                assert(acc@.map_values(|s: String| s@) =~= distinct_spec(before + names.take(j as int)).push(name@));
            }
            j = j + 1;
        }
        assert(vs.take(i + 1).drop_last() =~= vs.take(i as int));
        assert(names.take(j as int) =~= names);
        i = i + 1;
    }
    assert(vs.take(i as int) =~= vs);
    Ok(acc)
}

/// Each party that voted in the seating is named exactly once.
pub proof fn lemma_parties_in_seating(votings: Seq<Voting>)
    ensures
        distinct_spec(names_in_votings(votings)).no_duplicates(),
        forall|x: Seq<char>| #[trigger] distinct_spec(names_in_votings(votings)).contains(x)
            <==> names_in_votings(votings).contains(x),
{
    lemma_distinct(names_in_votings(votings));
}

} // verus!
