//! Rows read from the database.

use vstd::prelude::*;
use crate::domain::data::VotingHeader;

verus! {

/// A voting header with its database id.
#[derive(Debug)]
pub struct DbVotingHeader {
    pub id: i32,
    pub header: VotingHeader,
}

impl DbVotingHeader {
    pub fn new(id: i32, header: VotingHeader) -> (h: DbVotingHeader)
        ensures
            h.id == id,
            h.header == header,
    {
        DbVotingHeader { id, header }
    }
}

} // verus!
