//! The Internet Archive's Wayback Machine: the availability query, and the
//! archived snapshot it answers with.
use vstd::prelude::*;
use crate::fetch::FetchError;
use crate::text::{append, chars_of, string_of};
use crate::weburl::{percent_encoded, url_encode};

verus! {

/// The closest archived snapshot of a URL.
#[derive(Debug, Clone)]
pub struct Snapshot {
    pub url: String,
    pub timestamp: String,
    pub status: String,
}

/// An archived page.
#[derive(Debug, Clone)]
pub struct ArchiveResult {
    pub original_url: String,
    pub snapshot_url: String,
    pub capture_date: String,
    pub content: String,
}

/// The availability query for `url`, near the date `prefer_date` when given.
pub fn availability_url(url: &str, prefer_date: Option<&str>) -> (q: String)
    ensures
        q@ == "https://archive.org/wayback/available?url="@ + percent_encoded(url@) + "&timestamp="@
            + match prefer_date {
            Some(d) => d@,
            None => Seq::empty(),
        },
{
    let mut v = chars_of("https://archive.org/wayback/available?url=");
    append(&mut v, chars_of(url_encode(url).as_str()).as_slice());
    append(&mut v, chars_of("&timestamp=").as_slice());
    match prefer_date {
        Some(d) => append(&mut v, chars_of(d).as_slice()),
        None => {},
    }
    string_of(v.as_slice())
}

/// The error for an availability answer that is not the expected JSON, with
/// the parser's message `detail`.
pub fn availability_parse_error(detail: &str) -> (e: FetchError)
    ensures
        e matches FetchError::HttpError(m) && m@ == "Failed to parse Wayback API response: "@ + detail@,
{
    let mut v = chars_of("Failed to parse Wayback API response: ");
    append(&mut v, chars_of(detail).as_slice());
    FetchError::HttpError(string_of(v.as_slice()))
}

/// The snapshot to fetch for `url`: the closest one, or an error when the
/// archive has none.
pub fn closest_snapshot(url: &str, closest: Option<Snapshot>) -> (r: Result<Snapshot, FetchError>)
    ensures
        match closest {
            Some(s) => r matches Ok(t) && t == s,
            None => r matches Err(FetchError::HttpError(m)) && m@ == "No archived snapshot found for "@
                + url@,
        },
{
    match closest {
        Some(s) => Ok(s),
        None => {
            let mut v = chars_of("No archived snapshot found for ");
            append(&mut v, chars_of(url).as_slice());
            Err(FetchError::HttpError(string_of(v.as_slice())))
        },
    }
}

/// The archived page of `url` from its snapshot and the snapshot's content.
pub fn archive_result(url: &str, snapshot: Snapshot, content: String) -> (a: ArchiveResult)
    ensures
        a.original_url@ == url@,
        a.snapshot_url == snapshot.url,
        a.capture_date == snapshot.timestamp,
        a.content == content,
{
    ArchiveResult {
        original_url: string_of(chars_of(url).as_slice()),
        snapshot_url: snapshot.url,
        capture_date: snapshot.timestamp,
        content,
    }
}

} // verus!
