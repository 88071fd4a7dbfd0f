//! Fetches through the Jina Reader service, which renders pages and returns
//! markdown.
use vstd::prelude::*;
use crate::fetch::{FetchError, FetchResult};
use crate::text::{append, append_str, decimal, decimal_of, string_of};

verus! {

broadcast use vstd::string::group_string_axioms;

/// The reader service's address; the page URL is appended to it.
pub open spec fn reader_base() -> Seq<char> {
    "https://r.jina.ai/"@
}

/// The reader URL for a page.
pub fn jina_url(url: &str) -> (r: String)
    ensures
        r@ == reader_base() + url@,
{
    let mut v: Vec<char> = Vec::new();
    append_str(&mut v, "https://r.jina.ai/");
    append_str(&mut v, url);
    string_of(v.as_slice())
}

/// The `Authorization` header to send: a bearer token when a non-empty key is set.
pub fn jina_auth_header(api_key: Option<&str>) -> (h: Option<String>)
    ensures
        match api_key {
            Some(k) => if k@.len() > 0 {
                h matches Some(v) && v@ == "Bearer "@ + k@
            } else {
                h is None
            },
            None => h is None,
        },
{
    match api_key {
        Some(k) => {
            if k.is_empty() {
                None
            } else {
                let mut v: Vec<char> = Vec::new();
                append_str(&mut v, "Bearer ");
                append_str(&mut v, k);
                Some(string_of(v.as_slice()))
            }
        },
        None => None,
    }
}

/// The message for the reader's payment-required answer.
pub open spec fn jina_quota_text() -> Seq<char> {
    "Jina Reader rate limit exceeded. Add a jina_api_key to config.toml for higher limits."@
}

/// The error for an answer the body of which is not worth reading: 402 means the
/// free quota is used up.
pub fn jina_status_error(status: u16) -> (e: Option<FetchError>)
    ensures
        status == 402 ==> (e matches Some(FetchError::HttpError(m)) && m@ == jina_quota_text()),
        status != 402 ==> e is None,
{
    if status == 402 {
        Some(FetchError::HttpError(
            "Jina Reader rate limit exceeded. Add a jina_api_key to config.toml for higher limits.".to_string(),
        ))
    } else {
        None
    }
}

/// The result of a reader fetch of `url` that answered `status` with `body`: the
/// markdown on 200, an error naming the status otherwise.
pub fn jina_result(url: &str, status: u16, body: String) -> (r: Result<FetchResult, FetchError>)
    ensures
        status == 200 ==> (r matches Ok(p) && p.url@ == url@ && p.status_code == 200 && p.content
            == body && p.method@ == "jina"@),
        status != 200 ==> (r matches Err(FetchError::HttpError(m)) && m@ == "Jina returned status "@
            + decimal(status as nat)),
{
    if status != 200 {
        let mut v: Vec<char> = Vec::new();
        append_str(&mut v, "Jina returned status ");
        append(&mut v, decimal_of(status as u64).as_slice());
        return Err(FetchError::HttpError(string_of(v.as_slice())));
    }
    Ok(FetchResult { url: url.to_string(), status_code: 200, content: body, method: "jina".to_string() })
}

} // verus!
