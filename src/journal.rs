//! Journal entries as the entry store hands them over, and the request and
//! query shapes of the entry API.

use vstd::prelude::*;

verus! {

/// One dated entry of the store.
#[derive(Debug, Clone)]
pub struct Journal {
    pub id: i64,
    pub content: String,
    pub date: String,
    pub create_time: i64,
    pub update_time: i64,
}

/// Creates the entry of a date, or replaces its content.
#[derive(Debug, Clone)]
pub struct CreateJournalReq {
    pub content: String,
    pub date: String,
    pub auto_sync: Option<bool>,
}

/// Changes the content or the date of an entry.
#[derive(Debug, Clone)]
pub struct UpdateJournalReq {
    pub content: Option<String>,
    pub date: Option<String>,
    pub auto_sync: Option<bool>,
}

/// Filters and pages a listing of entries.
#[derive(Debug, Clone)]
pub struct ListQuery {
    pub date: Option<String>,
    pub page: Option<i64>,
    pub size: Option<i64>,
}

impl Journal {
    /// The date and the content of the entry.
    pub open spec fn entry(&self) -> (Seq<char>, Seq<char>) {
        (self.date@, self.content@)
    }
}

pub open spec fn entries(js: Seq<Journal>) -> Seq<(Seq<char>, Seq<char>)> {
    js.map_values(|j: Journal| j.entry())
}

} // verus!
