//! Records kept in the database.
use vstd::prelude::*;

verus! {

/// A governance proposal as stored.
pub struct Proposal {
    pub id: String,
    pub title: String,
}

/// A news URL that has been crawled.
pub struct NewsEntry {
    pub url: String,
}

} // verus!
