//! Web search and the Internet Archive.
pub mod duckduckgo;
pub mod wayback;

use vstd::prelude::*;
use crate::text::{chars_of, string_of};

verus! {

/// One web search result.
#[derive(Debug, Clone)]
pub struct SearchResult {
    pub title: String,
    pub url: String,
    pub snippet: String,
}

impl SearchResult {
    /// A copy of the result.
    pub fn duplicate(&self) -> (r: SearchResult)
        ensures
            result_view(r) == result_view(*self),
    {
        SearchResult {
            title: string_of(chars_of(self.title.as_str()).as_slice()),
            url: string_of(chars_of(self.url.as_str()).as_slice()),
            snippet: string_of(chars_of(self.snippet.as_str()).as_slice()),
        }
    }
}

/// The view of a search result: title, URL and snippet.
pub open spec fn result_view(r: SearchResult) -> (Seq<char>, Seq<char>, Seq<char>) {
    (r.title@, r.url@, r.snippet@)
}

/// The views of search results.
pub open spec fn results_view(rs: Seq<SearchResult>) -> Seq<(Seq<char>, Seq<char>, Seq<char>)> {
    rs.map_values(|r: SearchResult| result_view(r))
}

} // verus!
