pub mod crawler;
pub mod discovery;
pub mod direct;
pub mod jina;
pub mod sitemap;

use vstd::prelude::*;
use crate::text::{append, append_str, chars_of, decimal, decimal_of, string_of};

verus! {

/// Why a fetch failed.
#[derive(Debug)]
pub enum FetchError {
    HttpError(String),
    Timeout(u64),
    Blocked(u16),
    UrlError(String),
    ExtractionError(String),
}

/// The text a fetch error is shown as.
pub open spec fn fetch_error_text(e: FetchError) -> Seq<char> {
    match e {
        FetchError::HttpError(s) => "HTTP request failed: "@ + s@,
        FetchError::Timeout(n) => "Request timed out after "@ + decimal(n as nat) + "s"@,
        FetchError::Blocked(n) => "Blocked by site protection (status "@ + decimal(n as nat) + ")"@,
        FetchError::UrlError(s) => "URL parse error: "@ + s@,
        FetchError::ExtractionError(s) => "Content extraction failed: "@ + s@,
    }
}

impl FetchError {
    /// The message this error is shown with.
    pub fn message(&self) -> (m: String)
        ensures
            m@ == fetch_error_text(*self),
    {
        let mut v: Vec<char> = Vec::new();
        match self {
            FetchError::HttpError(s) => {
                append_str(&mut v, "HTTP request failed: ");
                append_str(&mut v, s.as_str());
            },
            FetchError::Timeout(n) => {
                append_str(&mut v, "Request timed out after ");
                append(&mut v, decimal_of(*n).as_slice());
                append_str(&mut v, "s");
            },
            FetchError::Blocked(n) => {
                append_str(&mut v, "Blocked by site protection (status ");
                append(&mut v, decimal_of(*n as u64).as_slice());
                append_str(&mut v, ")");
            },
            FetchError::UrlError(s) => {
                append_str(&mut v, "URL parse error: ");
                append_str(&mut v, s.as_str());
            },
            FetchError::ExtractionError(s) => {
                append_str(&mut v, "Content extraction failed: ");
                append_str(&mut v, s.as_str());
            },
        }
        string_of(v.as_slice())
    }
}

/// A fetched page.
#[derive(Debug, Clone)]
pub struct FetchResult {
    pub url: String,
    pub status_code: u16,
    pub content: String,
    pub method: String,
}

/// What to do after the direct fetch of a page.
pub enum FallbackStep {
    /// Answer with this result.
    Done(Result<FetchResult, FetchError>),
    /// Ask the reader service instead.
    TryReader,
}

/// The direct fetch's result is kept unless it failed or the site blocked it
/// (403 or 503).
pub open spec fn direct_is_final(direct: Result<FetchResult, FetchError>) -> bool {
    match direct {
        Ok(r) => r.status_code != 403 && r.status_code != 503,
        Err(_) => false,
    }
}

/// The first decision of the fallback chain: a successful or non-blocked direct
/// fetch is the answer; a failed or blocked one falls back to the reader service.
pub fn fallback_after_direct(direct: Result<FetchResult, FetchError>) -> (step: FallbackStep)
    ensures
        direct_is_final(direct) ==> step == FallbackStep::Done(direct),
        !direct_is_final(direct) ==> step is TryReader,
{
    match direct {
        Ok(r) => {
            if r.status_code == 403 || r.status_code == 503 {
                FallbackStep::TryReader
            } else {
                FallbackStep::Done(Ok(r))
            }
        },
        Err(_) => FallbackStep::TryReader,
    }
}

/// The last decision of the fallback chain: the reader's page, or a block error
/// (403) when the reader failed too.
pub fn fallback_after_reader(reader: Result<FetchResult, FetchError>) -> (r: Result<
    FetchResult,
    FetchError,
>)
    ensures
        reader is Ok ==> r == reader,
        reader is Err ==> r == Err::<FetchResult, FetchError>(FetchError::Blocked(403)),
{
    match reader {
        Ok(p) => Ok(p),
        Err(_) => Err(FetchError::Blocked(403)),
    }
}

/// The error for a request that could not be sent: a timeout, or an HTTP error
/// with the client's message.
pub fn send_error(timed_out: bool, message: String, timeout_seconds: u64) -> (e: FetchError)
    ensures
        timed_out ==> e == FetchError::Timeout(timeout_seconds),
        !timed_out ==> e == FetchError::HttpError(message),
{
    if timed_out {
        FetchError::Timeout(timeout_seconds)
    } else {
        FetchError::HttpError(message)
    }
}

} // verus!
