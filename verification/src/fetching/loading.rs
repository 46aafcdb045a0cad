//! The decisions of loading a whole seating; the pages themselves are fetched
//! concurrently by the caller.

use vstd::prelude::*;
use crate::domain::data::{Seating, SeatingHeader, Voting};
use crate::fetching::html::Document;
use crate::fetching::tools::{sanitize_html, sanitize_spec};

verus! {

/// The votings loaded before the first one that failed to load.
pub open spec fn loaded_prefix(rs: Seq<Option<Voting>>) -> Seq<Voting>
    decreases rs.len(),
{
    if rs.len() == 0 {
        Seq::empty()
    } else {
        match rs[0] {
            Some(v) => seq![v] + loaded_prefix(rs.drop_first()),
            None => Seq::empty(),
        }
    }
}

/// The seating `header` with the votings loaded for it, taken in the order in which
/// their loading finished and up to the first one that failed.
pub fn seating_from_loaded(header: SeatingHeader, results: Vec<Option<Voting>>) -> (s: Seating)
    ensures
        s.header == header,
        s.votings@ == loaded_prefix(results@),
{
    let ghost all = results@;
    let mut rest = results;
    let mut votings: Vec<Voting> = Vec::new();
    while rest.len() > 0
        invariant_except_break
            loaded_prefix(all) == votings@ + loaded_prefix(rest@),
        ensures
            loaded_prefix(all) == votings@,
        decreases rest@.len(),
    {
        let ghost before = rest@;
        match rest.remove(0) {
            Some(v) => {
                assert(rest@ =~= before.drop_first());
                votings.push(v);
                assert(loaded_prefix(all) =~= votings@ + loaded_prefix(rest@));
            },
            None => {
                assert(loaded_prefix(before) =~= Seq::<Voting>::empty());
                assert(votings@ + Seq::<Voting>::empty() =~= votings@);
                break;
            },
        }
    }
    Seating::new(header, votings)
}

/// A fetched page ready for reading: every `_` is replaced by `x`, then the text is
/// parsed as an HTML document.
pub fn read_document(html: &str) -> (d: Document)
    ensures
        d@ == sanitize_spec(html@),
{
    let text = sanitize_html(html);
    Document::parse(text.as_str())
}

} // verus!
