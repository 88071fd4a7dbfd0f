pub mod apollo;
pub mod linkedin;
pub mod x;

use vstd::prelude::*;
use crate::fetch::FetchError;
use crate::text::{append, chars_of, decimal, decimal_of, string_of};

verus! {

/// A company as the research tools report it.
#[derive(Debug, Clone)]
pub struct CompanyInfo {
    pub name: String,
    pub domain: Option<String>,
    pub industry: Option<String>,
    pub size: Option<String>,
    pub hq: Option<String>,
    pub description: Option<String>,
    pub linkedin_url: Option<String>,
}

/// A LinkedIn person profile.
#[derive(Debug, Clone)]
pub struct LinkedInProfile {
    pub name: String,
    pub headline: Option<String>,
    pub about: Option<String>,
    pub experience: Vec<String>,
    pub education: Vec<String>,
    pub recent_posts: Vec<String>,
}

/// An X/Twitter profile.
#[derive(Debug, Clone)]
pub struct XProfile {
    pub handle: String,
    pub bio: Option<String>,
    pub followers: Option<u64>,
    pub following: Option<u64>,
    pub recent_tweets: Vec<Tweet>,
}

/// One post on X.
#[derive(Debug, Clone)]
pub struct Tweet {
    pub text: String,
    pub created_at: Option<String>,
    pub likes: Option<u64>,
    pub retweets: Option<u64>,
}

/// A browser cookie exported for a site.
#[derive(Debug, Clone)]
pub struct CookieEntry {
    pub name: String,
    pub value: String,
}

/// The views of cookies as name and value.
pub open spec fn cookie_views(cs: Seq<CookieEntry>) -> Seq<(Seq<char>, Seq<char>)> {
    cs.map_values(|c: CookieEntry| (c.name@, c.value@))
}

/// The value of the first cookie named `name`, if any.
pub open spec fn cookie_value(cs: Seq<(Seq<char>, Seq<char>)>, name: Seq<char>) -> Option<Seq<char>>
    decreases cs.len(),
{
    if cs.len() == 0 {
        None
    } else if cs[0].0 == name {
        Some(cs[0].1)
    } else {
        cookie_value(cs.drop_first(), name)
    }
}

/// The value of the first cookie named `name`, if any.
pub fn find_cookie(cookies: &Vec<CookieEntry>, name: &str) -> (v: Option<String>)
    ensures
        opt_view(v) == cookie_value(cookie_views(cookies@), name@),
{
    let ghost all = cookie_views(cookies@);
    let n = chars_of(name);
    let mut i: usize = 0;
    assert(all.skip(0) =~= all);
    while i < cookies.len()
        invariant
            all == cookie_views(cookies@),
            n@ == name@,
            i <= cookies@.len(),
            cookie_value(all, name@) == cookie_value(all.skip(i as int), name@),
        decreases cookies@.len() - i,
    {
        assert(all.skip(i as int)[0] == (cookies@[i as int].name@, cookies@[i as int].value@));
        assert(all.skip(i as int).drop_first() =~= all.skip(i + 1));
        if crate::text::eq(chars_of(cookies[i].name.as_str()).as_slice(), n.as_slice()) {
            return Some(string_of(chars_of(cookies[i].value.as_str()).as_slice()));
        }
        i = i + 1;
    }
    None
}

/// The view of an optional string.
pub open spec fn opt_view(o: Option<String>) -> Option<Seq<char>> {
    match o {
        Some(s) => Some(s@),
        None => None,
    }
}

/// The error for a reader service answer with status `status` for a page of
/// kind `page`, unless the status is 200.
pub fn reader_status_check(status: u16, page: &str) -> (r: Result<(), FetchError>)
    ensures
        status == 200 <==> r is Ok,
        status != 200 ==> (r matches Err(FetchError::HttpError(m)) && m@ == "Jina returned status "@
            + decimal(status as nat) + " for "@ + page@),
{
    if status != 200 {
        let mut v = chars_of("Jina returned status ");
        append(&mut v, decimal_of(status as u64).as_slice());
        append(&mut v, chars_of(" for ").as_slice());
        append(&mut v, chars_of(page).as_slice());
        return Err(FetchError::HttpError(string_of(v.as_slice())));
    }
    Ok(())
}

} // verus!
