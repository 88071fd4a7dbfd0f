//! The research tools' own decisions: parameter defaults, the queries they
//! search with, the results they keep, and the reports they answer with.
use vstd::prelude::*;
use crate::fetch::crawler::{CrawlResult, PageResult};
use crate::fetch::{fetch_error_text, FetchError};
use crate::search::wayback::ArchiveResult;
use crate::search::{result_view, results_view, SearchResult};
use crate::social::opt_view;
use crate::social::x::handle_of;
use crate::text::{
    append, chars_of, contains, contains_str, decimal, decimal_of, eq_str, find, find_str,
    lemma_find_from, occurs_at, replace, replace_str, rfind, rfind_str, string_of, trim,
    trim_end_char, trim_end_char_of, trim_of, trim_start_matches_str, utf8_len, utf8_width, views,
};

verus! {

/// Seconds allowed for fetching social pages through the reader service.
pub const SOCIAL_TIMEOUT: u64 = 60;

/// Seconds a search answer stays cached.
pub const SEARCH_CACHE_TTL: u64 = 21600;

/// Seconds a social profile stays cached.
pub const SOCIAL_CACHE_TTL: u64 = 3600;

/// Leads looked for per title unless asked otherwise.
pub fn default_three() -> (n: usize)
    ensures
        n == 3,
{
    3
}

/// Whether to use the cache unless asked otherwise.
pub fn default_true() -> (b: bool)
    ensures
        b,
{
    true
}

/// Pages a crawl fetches at most unless asked otherwise.
pub fn default_max_pages() -> (n: usize)
    ensures
        n == 50,
{
    50
}

/// The link depth a crawl follows unless asked otherwise.
pub fn default_max_depth() -> (n: u32)
    ensures
        n == 3,
{
    3
}

/// Search results returned unless asked otherwise.
pub fn default_search_limit() -> (n: usize)
    ensures
        n == 20,
{
    20
}

/// Companies returned unless asked otherwise.
pub fn default_company_limit() -> (n: usize)
    ensures
        n == 50,
{
    50
}

/// What a LinkedIn search looks for unless asked otherwise.
pub fn default_companies() -> (s: String)
    ensures
        s@ == "companies"@,
{
    string_of(chars_of("companies").as_slice())
}

/// Results returned by the LinkedIn and X searches unless asked otherwise.
pub fn default_ten() -> (n: usize)
    ensures
        n == 10,
{
    10
}

/// The reader service key to send: none when the configured key is empty.
pub fn optional_key(key: &str) -> (k: Option<String>)
    ensures
        key@.len() == 0 ==> k is None,
        key@.len() > 0 ==> opt_view(k) == Some(key@),
{
    let c = chars_of(key);
    if c.len() == 0 {
        None
    } else {
        Some(string_of(c.as_slice()))
    }
}

/// A tool's answer for a failure: `context`, then the error's message.
pub fn tool_error(context: &str, e: &FetchError) -> (t: String)
    ensures
        t@ == context@ + fetch_error_text(*e),
{
    let mut v = chars_of(context);
    append(&mut v, chars_of(e.message().as_str()).as_slice());
    string_of(v.as_slice())
}

// ---------------------------------------------------------------------------
// Reports
// ---------------------------------------------------------------------------
/// The section of a crawl report for one page.
pub open spec fn page_section(p: PageResult) -> Seq<char> {
    "---\n## "@ + (match p.title {
        Some(t) => t@,
        None => "Untitled"@,
    }) + " ("@ + p.url@ + ")\n\n"@ + p.content@ + "\n\n"@
}

/// The sections of the pages `ps`, in order.
pub open spec fn pages_report(ps: Seq<PageResult>) -> Seq<char>
    decreases ps.len(),
{
    if ps.len() == 0 {
        Seq::empty()
    } else {
        pages_report(ps.drop_last()) + page_section(ps.last())
    }
}

/// The report of a crawl: its domain, how its pages were found, how many,
/// and each page.
pub open spec fn crawl_report_text(r: CrawlResult) -> Seq<char> {
    "# Crawl Results for "@ + r.domain@ + "\n\nDiscovery method: "@ + r.discovery_method@
        + "\nPages found: "@ + decimal(r.pages@.len()) + "\n\n"@ + pages_report(r.pages@)
}

/// The report of a crawl.
pub fn crawl_report(r: &CrawlResult) -> (t: String)
    ensures
        t@ == crawl_report_text(*r),
{
    let mut v = chars_of("# Crawl Results for ");
    append(&mut v, chars_of(r.domain.as_str()).as_slice());
    append(&mut v, chars_of("\n\nDiscovery method: ").as_slice());
    append(&mut v, chars_of(r.discovery_method.as_str()).as_slice());
    append(&mut v, chars_of("\nPages found: ").as_slice());
    append(&mut v, decimal_of(r.pages.len() as u64).as_slice());
    append(&mut v, chars_of("\n\n").as_slice());
    let ghost head = v@;
    let ghost all = r.pages@;
    let mut i: usize = 0;
    assert(all.take(0) =~= Seq::<PageResult>::empty());
    while i < r.pages.len()
        invariant
            all == r.pages@,
            i <= all.len(),
            v@ == head + pages_report(all.take(i as int)),
        decreases all.len() - i,
    {
        assert(all.take(i + 1).drop_last() =~= all.take(i as int));
        assert(all.take(i + 1).last() == all[i as int]);
        let p = &r.pages[i];
        let ghost before = v@;
        append(&mut v, chars_of("---\n## ").as_slice());
        match &p.title {
            Some(t) => append(&mut v, chars_of(t.as_str()).as_slice()),
            None => append(&mut v, chars_of("Untitled").as_slice()),
        }
        append(&mut v, chars_of(" (").as_slice());
        append(&mut v, chars_of(p.url.as_str()).as_slice());
        append(&mut v, chars_of(")\n\n").as_slice());
        append(&mut v, chars_of(p.content.as_str()).as_slice());
        append(&mut v, chars_of("\n\n").as_slice());
        assert(v@ =~= before + page_section(all[i as int]));
        i = i + 1;
    }
    assert(all.take(all.len() as int) =~= all);
    string_of(v.as_slice())
}

/// The report of an archived page.
pub open spec fn archive_report_text(a: ArchiveResult) -> Seq<char> {
    "# Archived Snapshot\n\nOriginal URL: "@ + a.original_url@ + "\nSnapshot URL: "@ + a.snapshot_url@
        + "\nCapture Date: "@ + a.capture_date@ + "\n\n---\n\n"@ + a.content@
}

/// The report of an archived page.
pub fn archive_report(a: &ArchiveResult) -> (t: String)
    ensures
        t@ == archive_report_text(*a),
{
    let mut v = chars_of("# Archived Snapshot\n\nOriginal URL: ");
    append(&mut v, chars_of(a.original_url.as_str()).as_slice());
    append(&mut v, chars_of("\nSnapshot URL: ").as_slice());
    append(&mut v, chars_of(a.snapshot_url.as_str()).as_slice());
    append(&mut v, chars_of("\nCapture Date: ").as_slice());
    append(&mut v, chars_of(a.capture_date.as_str()).as_slice());
    append(&mut v, chars_of("\n\n---\n\n").as_slice());
    append(&mut v, chars_of(a.content.as_str()).as_slice());
    string_of(v.as_slice())
}

// ---------------------------------------------------------------------------
// LinkedIn and X inputs and queries
// ---------------------------------------------------------------------------
/// The text after the last occurrence of `p` in `t`, or all of `t`.
pub open spec fn after_last(t: Seq<char>, p: Seq<char>) -> Seq<char> {
    match rfind(t, p) {
        Some(i) => t.skip(i + p.len()),
        None => t,
    }
}

/// The company slug in what a user typed: the last path segment of the
/// trimmed input without trailing `/`.
pub open spec fn slug_of(company: Seq<char>) -> Seq<char> {
    after_last(trim_end_char(trim(company), '/'), "/"@)
}

/// The username in what a user typed: the text after the last `/in/` of the
/// trimmed input without trailing `/`, or all of it.
pub open spec fn username_input(profile: Seq<char>) -> Seq<char> {
    after_last(trim_end_char(trim(profile), '/'), "/in/"@)
}

fn after_last_of(t: &[char], p: &str) -> (r: String)
    ensures
        r@ == after_last(t@, p@),
{
    match rfind_str(t, p) {
        Some(i) => {
            let pc = chars_of(p);
            let tl = t.len();
            let pl = pc.len();
            assert(i + pl <= tl);
            assert(t@.skip(i + pc@.len()) =~= t@.subrange(i + pc@.len(), t@.len() as int));
            string_of(&t[i + pl..tl])
        },
        None => string_of(t),
    }
}

/// The company slug in what a user typed.
pub fn company_slug(company: &str) -> (s: String)
    ensures
        s@ == slug_of(company@),
{
    let c = chars_of(company);
    let t = trim_end_char_of(trim_of(c.as_slice()), '/');
    after_last_of(t, "/")
}

/// The username in what a user typed.
pub fn person_username(profile: &str) -> (s: String)
    ensures
        s@ == username_input(profile@),
{
    let c = chars_of(profile);
    let t = trim_end_char_of(trim_of(c.as_slice()), '/');
    after_last_of(t, "/in/")
}

/// The web search for a person by username: the username with `-` as spaces,
/// quoted, then ` LinkedIn`.
pub fn person_search_query(username: &str) -> (q: String)
    ensures
        q@ == "\""@ + replace(username@, "-"@, " "@) + "\" LinkedIn"@,
{
    let mut v = chars_of("\"");
    let c = chars_of(username);
    append(&mut v, replace_str(c.as_slice(), "-", " ").as_slice());
    append(&mut v, chars_of("\" LinkedIn").as_slice());
    string_of(v.as_slice())
}

/// The results whose URL is a LinkedIn profile, in order.
pub open spec fn profile_hits(rs: Seq<(Seq<char>, Seq<char>, Seq<char>)>) -> Seq<(Seq<char>, Seq<char>, Seq<char>)>
    decreases rs.len(),
{
    if rs.len() == 0 {
        Seq::empty()
    } else if contains(rs.last().1, "linkedin.com/in/"@) {
        profile_hits(rs.drop_last()).push(rs.last())
    } else {
        profile_hits(rs.drop_last())
    }
}

/// A report section per result: its title, URL and snippet.
pub open spec fn hits_report(rs: Seq<(Seq<char>, Seq<char>, Seq<char>)>) -> Seq<char>
    decreases rs.len(),
{
    if rs.len() == 0 {
        Seq::empty()
    } else {
        hits_report(rs.drop_last()) + "## "@ + rs.last().0 + "\n"@ + "URL: "@ + rs.last().1 + "\n"@
            + rs.last().2 + "\n\n"@
    }
}

/// The report of a person search: a section per LinkedIn profile found, or
/// none when none was.
pub fn person_search_report(results: &Vec<SearchResult>) -> (r: Option<String>)
    ensures
        profile_hits(results_view(results@)).len() == 0 ==> r is None,
        profile_hits(results_view(results@)).len() > 0 ==> opt_view(r) == Some(
            hits_report(profile_hits(results_view(results@))),
        ),
{
    let ghost all = results_view(results@);
    let mut v: Vec<char> = Vec::new();
    let mut found = false;
    let mut i: usize = 0;
    assert(all.take(0) =~= Seq::<(Seq<char>, Seq<char>, Seq<char>)>::empty());
    while i < results.len()
        invariant
            all == results_view(results@),
            i <= all.len(),
            found == (profile_hits(all.take(i as int)).len() > 0),
            v@ == hits_report(profile_hits(all.take(i as int))),
        decreases all.len() - i,
    {
        assert(all.take(i + 1).drop_last() =~= all.take(i as int));
        assert(all.take(i + 1).last() == result_view(results@[i as int]));
        let r = &results[i];
        let uc = chars_of(r.url.as_str());
        if contains_str(uc.as_slice(), "linkedin.com/in/") {
            let ghost prev = profile_hits(all.take(i as int));
            append(&mut v, chars_of("## ").as_slice());
            append(&mut v, chars_of(r.title.as_str()).as_slice());
            append(&mut v, chars_of("\n").as_slice());
            append(&mut v, chars_of("URL: ").as_slice());
            append(&mut v, uc.as_slice());
            append(&mut v, chars_of("\n").as_slice());
            append(&mut v, chars_of(r.snippet.as_str()).as_slice());
            append(&mut v, chars_of("\n\n").as_slice());
            assert(profile_hits(all.take(i + 1)) == prev.push(result_view(results@[i as int])));
            assert(profile_hits(all.take(i + 1)).drop_last() =~= prev);
            found = true;
        }
        i = i + 1;
    }
    assert(all.take(all.len() as int) =~= all);
    if !found {
        None
    } else {
        Some(string_of(v.as_slice()))
    }
}

/// The URL path a LinkedIn search keeps: profiles for people, company pages
/// otherwise.
pub open spec fn path_filter_of(search_type: Seq<char>) -> Seq<char> {
    if search_type == "people"@ || search_type == "person"@ {
        "/in/"@
    } else {
        "/company/"@
    }
}

/// The URL path a LinkedIn search keeps.
pub fn search_path_filter(search_type: &str) -> (p: String)
    ensures
        p@ == path_filter_of(search_type@),
{
    let c = chars_of(search_type);
    if eq_str(c.as_slice(), "people") || eq_str(c.as_slice(), "person") {
        proof {
            reveal_strlit("people");
            reveal_strlit("person");
        }
        string_of(chars_of("/in/").as_slice())
    } else {
        string_of(chars_of("/company/").as_slice())
    }
}

/// The web search for a LinkedIn search: the query then ` LinkedIn`.
pub fn linkedin_search_query(query: &str) -> (q: String)
    ensures
        q@ == query@ + " LinkedIn"@,
{
    let mut v = chars_of(query);
    append(&mut v, chars_of(" LinkedIn").as_slice());
    string_of(v.as_slice())
}

/// How many results a LinkedIn search asks the web search for: four times
/// the number it returns.
pub fn linkedin_fetch_limit(limit: usize) -> (n: usize)
    requires
        limit * 4 <= usize::MAX,
    ensures
        n == limit * 4,
{
    limit * 4
}

/// The results on LinkedIn whose URL has the path `path`, in order.
pub open spec fn linkedin_hits(rs: Seq<(Seq<char>, Seq<char>, Seq<char>)>, path: Seq<char>) -> Seq<
    (Seq<char>, Seq<char>, Seq<char>),
>
    decreases rs.len(),
{
    if rs.len() == 0 {
        Seq::empty()
    } else if contains(rs.last().1, "linkedin.com"@) && contains(rs.last().1, path) {
        linkedin_hits(rs.drop_last(), path).push(rs.last())
    } else {
        linkedin_hits(rs.drop_last(), path)
    }
}

/// The first `k` items of `s`, or all of them.
pub open spec fn first_k<T>(s: Seq<T>, k: int) -> Seq<T> {
    if s.len() <= k {
        s
    } else {
        s.take(k)
    }
}

/// The results a LinkedIn search returns: at most `limit` of those on
/// LinkedIn with the path `path`, in order.
pub fn linkedin_results(results: &Vec<SearchResult>, path: &str, limit: usize) -> (r: Vec<SearchResult>)
    ensures
        results_view(r@) == first_k(linkedin_hits(results_view(results@), path@), limit as int),
{
    let ghost all = results_view(results@);
    let pc = chars_of(path);
    let mut r: Vec<SearchResult> = Vec::new();
    let mut i: usize = 0;
    assert(all.take(0) =~= Seq::<(Seq<char>, Seq<char>, Seq<char>)>::empty());
    while i < results.len()
        invariant
            all == results_view(results@),
            pc@ == path@,
            i <= all.len(),
            results_view(r@) == first_k(linkedin_hits(all.take(i as int), path@), limit as int),
        decreases all.len() - i,
    {
        assert(all.take(i + 1).drop_last() =~= all.take(i as int));
        assert(all.take(i + 1).last() == result_view(results@[i as int]));
        let ghost hits = linkedin_hits(all.take(i as int), path@);
        let uc = chars_of(results[i].url.as_str());
        if contains_str(uc.as_slice(), "linkedin.com") && crate::text::find_of(
            uc.as_slice(),
            pc.as_slice(),
        ).is_some() {
            assert(linkedin_hits(all.take(i + 1), path@) == hits.push(all[i as int]));
            if r.len() < limit {
                let item = results[i].duplicate();
                let ghost prev = results_view(r@);
                r.push(item);
                assert(results_view(r@) =~= prev.push(all[i as int]));
                assert(first_k(hits.push(all[i as int]), limit as int) =~= prev.push(all[i as int]));
            } else {
                assert(first_k(hits.push(all[i as int]), limit as int) =~= first_k(hits, limit as int));
            }
        }
        i = i + 1;
    }
    assert(all.take(all.len() as int) =~= all);
    r
}

/// The web search for an X search: `site:x.com ` then the query.
pub fn x_search_query(query: &str) -> (q: String)
    ensures
        q@ == "site:x.com "@ + query@,
{
    let mut v = chars_of("site:x.com ");
    append(&mut v, chars_of(query).as_slice());
    string_of(v.as_slice())
}

/// The handle in what a user typed for an X profile: trimmed, then without
/// `@`, the x.com or twitter.com prefix and trailing `/`.
pub fn x_tool_handle(input: &str) -> (h: String)
    ensures
        h@ == handle_of(trim(input@)),
{
    let c = chars_of(input);
    let t = trim_of(c.as_slice());
    crate::social::x::normalize_handle(string_of(t).as_str())
}

/// Whether a browser helper's output is usable: it reports no `"error"`.
pub fn helper_output_ok(out: &str) -> (ok: bool)
    ensures
        ok == !contains(out@, "\"error\""@),
{
    !contains_str(chars_of(out).as_slice(), "\"error\"")
}

// ---------------------------------------------------------------------------
// Batch fetch
// ---------------------------------------------------------------------------
/// The longest prefix of `s` that takes at most `n` bytes in UTF-8.
pub open spec fn byte_prefix(s: Seq<char>, n: int) -> Seq<char>
    decreases s.len(),
{
    if s.len() == 0 || utf8_width(s[0]) > n {
        Seq::empty()
    } else {
        seq![s[0]] + byte_prefix(s.drop_first(), n - utf8_width(s[0]))
    }
}

/// What a batch fetch keeps of a page's content: all of it up to 5000 bytes,
/// else the chars that fit in the first 5000 bytes (cut at the last char
/// boundary at or before byte 5000) with a note of the full length.
pub open spec fn batch_content(content: Seq<char>) -> Seq<char> {
    if utf8_len(content) > 5000 {
        byte_prefix(content, 5000) + "...\n\n[Truncated, "@ + decimal(utf8_len(content))
            + " total chars. Use fetch_url for full content.]"@
    } else {
        content
    }
}

proof fn lemma_utf8_len_push(s: Seq<char>, c: char)
    ensures
        utf8_len(s.push(c)) == utf8_len(s) + utf8_width(c),
{
    assert(s.push(c).drop_last() =~= s);
}

/// The content a batch fetch keeps of a page, cut at the last char boundary
/// at or before byte 5000, with a note, when longer.
pub fn truncate_for_batch(content: &str) -> (t: String)
    requires
        utf8_len(content@) <= usize::MAX,
    ensures
        t@ == batch_content(content@),
{
    let c = chars_of(content);
    let mut total: usize = 0;
    let mut out: Vec<char> = Vec::new();
    let mut i: usize = 0;
    let mut room: usize = 5000;
    let mut stopped = false;
    assert(c@.skip(0) =~= c@);
    while i < c.len()
        invariant
            c@ == content@,
            i <= c@.len(),
            total == utf8_len(c@.take(i as int)),
            utf8_len(content@) <= usize::MAX,
            stopped ==> out@ == byte_prefix(content@, 5000),
            !stopped ==> out@ + byte_prefix(c@.skip(i as int), room as int) == byte_prefix(content@, 5000),
            !stopped ==> utf8_len(out@) + room == 5000,
        decreases c@.len() - i,
    {
        let ch = c[i];
        let w: usize = if (ch as u32) < 0x80 {
            1
        } else if (ch as u32) < 0x800 {
            2
        } else if (ch as u32) < 0x10000 {
            3
        } else {
            4
        };
        proof {
            lemma_utf8_len_push(c@.take(i as int), ch);
            assert(c@.take(i + 1) =~= c@.take(i as int).push(ch));
            crate::text::lemma_utf8_len_prefix(c@, i + 1);
            assert(c@.skip(i as int)[0] == ch);
            assert(c@.skip(i as int).drop_first() =~= c@.skip(i + 1));
        }
        if !stopped {
            if w <= room {
                let ghost before = out@;
                out.push(ch);
                proof {
                    lemma_utf8_len_push(before, ch);
                }
                room = room - w;
            } else {
                stopped = true;
            }
        }
        total = total + w;
        i = i + 1;
    }
    assert(c@.take(c@.len() as int) =~= c@);
    if total > 5000 {
        let mut v = out;
        append(&mut v, chars_of("...\n\n[Truncated, ").as_slice());
        append(&mut v, decimal_of(total as u64).as_slice());
        append(&mut v, chars_of(" total chars. Use fetch_url for full content.]").as_slice());
        string_of(v.as_slice())
    } else {
        string_of(c.as_slice())
    }
}

// ---------------------------------------------------------------------------
// Leads
// ---------------------------------------------------------------------------
/// A person found at a company.
#[derive(Debug, Clone)]
pub struct Lead {
    pub name: String,
    pub title_searched: String,
    pub headline: String,
    pub linkedin_url: String,
    pub snippet: String,
    pub company: String,
}

/// The titles a lead search looks for unless asked otherwise.
pub open spec fn default_titles() -> Seq<Seq<char>> {
    seq![
        "CEO"@,
        "CTO"@,
        "Founder"@,
        "Co-Founder"@,
        "Head of Engineering"@,
        "VP Engineering"@,
        "Head of Product"@,
        "COO"@,
    ]
}

/// The titles a lead search looks for unless asked otherwise.
pub fn default_lead_titles() -> (v: Vec<String>)
    ensures
        views(v@) == default_titles(),
{
    let mut v: Vec<String> = Vec::new();
    v.push(string_of(chars_of("CEO").as_slice()));
    v.push(string_of(chars_of("CTO").as_slice()));
    v.push(string_of(chars_of("Founder").as_slice()));
    v.push(string_of(chars_of("Co-Founder").as_slice()));
    v.push(string_of(chars_of("Head of Engineering").as_slice()));
    v.push(string_of(chars_of("VP Engineering").as_slice()));
    v.push(string_of(chars_of("Head of Product").as_slice()));
    v.push(string_of(chars_of("COO").as_slice()));
    assert(views(v@) =~= default_titles());
    v
}

/// The web search for people with a title at a company.
pub fn lead_query(company: &str, title: &str) -> (q: String)
    ensures
        q@ == company@ + " "@ + title@ + " LinkedIn"@,
{
    let mut v = chars_of(company);
    append(&mut v, chars_of(" ").as_slice());
    append(&mut v, chars_of(title).as_slice());
    append(&mut v, chars_of(" LinkedIn").as_slice());
    string_of(v.as_slice())
}

/// The person's name in a LinkedIn result title `Name - Headline | LinkedIn`:
/// the trimmed text before ` - `, else before ` | `, else all of it trimmed.
pub open spec fn name_in_title(t: Seq<char>) -> Seq<char> {
    match find(t, " - "@) {
        Some(i) => trim(t.take(i)),
        None => match find(t, " | "@) {
            Some(j) => trim(t.take(j)),
            None => trim(t),
        },
    }
}

/// The person's name in a LinkedIn result title.
pub fn extract_name_from_title(title: &str) -> (n: String)
    ensures
        n@ == name_in_title(title@),
{
    let c = chars_of(title);
    match find_str(c.as_slice(), " - ") {
        Some(i) => {
            proof {
                lemma_find_from(c@, " - "@, 0);
                reveal_strlit(" - ");
            }
            assert(c@.take(i as int) =~= c@.subrange(0, i as int));
            string_of(trim_of(&c[0..i]))
        },
        None => match find_str(c.as_slice(), " | ") {
            Some(j) => {
                proof {
                    lemma_find_from(c@, " | "@, 0);
                    reveal_strlit(" | ");
                }
                assert(c@.take(j as int) =~= c@.subrange(0, j as int));
                string_of(trim_of(&c[0..j]))
            },
            None => string_of(trim_of(c.as_slice())),
        },
    }
}

/// The view of a lead: name, title searched, headline, URL, snippet, company.
pub open spec fn lead_view(l: Lead) -> (Seq<char>, Seq<char>, Seq<char>, Seq<char>, Seq<char>, Seq<char>) {
    (l.name@, l.title_searched@, l.headline@, l.linkedin_url@, l.snippet@, l.company@)
}

/// The lead a LinkedIn profile result gives for a title at a company.
pub open spec fn lead_of(
    company: Seq<char>,
    title: Seq<char>,
    r: (Seq<char>, Seq<char>, Seq<char>),
) -> (Seq<char>, Seq<char>, Seq<char>, Seq<char>, Seq<char>, Seq<char>) {
    (name_in_title(r.0), title, r.0, r.1, r.2, company)
}

/// The leads of the results of one title's search: the first `per_title`
/// LinkedIn profiles among them, in order.
pub open spec fn leads_of(
    company: Seq<char>,
    title: Seq<char>,
    results: Seq<(Seq<char>, Seq<char>, Seq<char>)>,
    per_title: int,
) -> Seq<(Seq<char>, Seq<char>, Seq<char>, Seq<char>, Seq<char>, Seq<char>)> {
    first_k(profile_hits(results), per_title).map_values(
        |r: (Seq<char>, Seq<char>, Seq<char>)| lead_of(company, title, r),
    )
}

/// The leads from one title's search results.
pub fn leads_from_results(company: &str, title: &str, results: &Vec<SearchResult>, per_title: usize) -> (l:
    Vec<Lead>)
    ensures
        l@.map_values(|x: Lead| lead_view(x)) == leads_of(
            company@,
            title@,
            results_view(results@),
            per_title as int,
        ),
{
    let ghost all = results_view(results@);
    let mut leads: Vec<Lead> = Vec::new();
    let mut i: usize = 0;
    assert(all.take(0) =~= Seq::<(Seq<char>, Seq<char>, Seq<char>)>::empty());
    while i < results.len()
        invariant
            all == results_view(results@),
            i <= all.len(),
            leads@.map_values(|x: Lead| lead_view(x)) == first_k(
                profile_hits(all.take(i as int)),
                per_title as int,
            ).map_values(|r: (Seq<char>, Seq<char>, Seq<char>)| lead_of(company@, title@, r)),
        decreases all.len() - i,
    {
        assert(all.take(i + 1).drop_last() =~= all.take(i as int));
        assert(all.take(i + 1).last() == result_view(results@[i as int]));
        let ghost hits = profile_hits(all.take(i as int));
        let r = &results[i];
        let uc = chars_of(r.url.as_str());
        if contains_str(uc.as_slice(), "linkedin.com/in/") {
            assert(profile_hits(all.take(i + 1)) == hits.push(all[i as int]));
            if leads.len() < per_title {
                let lead = Lead {
                    name: extract_name_from_title(r.title.as_str()),
                    title_searched: string_of(chars_of(title).as_slice()),
                    headline: string_of(chars_of(r.title.as_str()).as_slice()),
                    linkedin_url: string_of(uc.as_slice()),
                    snippet: string_of(chars_of(r.snippet.as_str()).as_slice()),
                    company: string_of(chars_of(company).as_slice()),
                };
                let ghost prev = leads@.map_values(|x: Lead| lead_view(x));
                leads.push(lead);
                assert(leads@.map_values(|x: Lead| lead_view(x)) =~= prev.push(lead_view(lead)));
                assert(first_k(hits.push(all[i as int]), per_title as int) =~= first_k(
                    hits,
                    per_title as int,
                ).push(all[i as int]));
                assert(first_k(hits.push(all[i as int]), per_title as int).map_values(
                    |r: (Seq<char>, Seq<char>, Seq<char>)| lead_of(company@, title@, r),
                ) =~= prev.push(lead_of(company@, title@, all[i as int])));
            } else {
                assert(leads@.map_values(|x: Lead| lead_view(x)).len() == leads@.len());
                assert(hits.len() >= per_title);
                assert(first_k(hits.push(all[i as int]), per_title as int) =~= first_k(
                    hits,
                    per_title as int,
                ));
            }
        }
        i = i + 1;
    }
    assert(all.take(all.len() as int) =~= all);
    leads
}

/// Whether a lead search has found all it looks for: `per_title` leads for
/// each of `n_titles` titles.
pub fn leads_full(found: usize, per_title: usize, n_titles: usize) -> (full: bool)
    requires
        per_title * n_titles <= usize::MAX,
    ensures
        full == (found >= per_title * n_titles),
{
    found >= per_title * n_titles
}

/// Every result a person search keeps is a LinkedIn profile.
pub proof fn lemma_profile_hits(rs: Seq<(Seq<char>, Seq<char>, Seq<char>)>)
    ensures
        profile_hits(rs).len() <= rs.len(),
        forall|k: int|
            0 <= k < profile_hits(rs).len() ==> contains(
                (#[trigger] profile_hits(rs)[k]).1,
                "linkedin.com/in/"@,
            ),
    decreases rs.len(),
{
    if rs.len() > 0 {
        lemma_profile_hits(rs.drop_last());
        let prev = profile_hits(rs.drop_last());
        let cur = profile_hits(rs);
        assert forall|k: int| 0 <= k < cur.len() implies contains(
            (#[trigger] cur[k]).1,
            "linkedin.com/in/"@,
        ) by {
            if k < prev.len() {
                assert(cur[k] == prev[k]);
            }
        }
    }
}

/// Every result a LinkedIn search keeps is a LinkedIn URL with the path.
pub proof fn lemma_linkedin_hits(rs: Seq<(Seq<char>, Seq<char>, Seq<char>)>, path: Seq<char>)
    ensures
        forall|k: int|
            0 <= k < linkedin_hits(rs, path).len() ==> contains(
                (#[trigger] linkedin_hits(rs, path)[k]).1,
                "linkedin.com"@,
            ) && contains(linkedin_hits(rs, path)[k].1, path),
    decreases rs.len(),
{
    if rs.len() > 0 {
        lemma_linkedin_hits(rs.drop_last(), path);
        let prev = linkedin_hits(rs.drop_last(), path);
        let cur = linkedin_hits(rs, path);
        assert forall|k: int| 0 <= k < cur.len() implies contains((#[trigger] cur[k]).1, "linkedin.com"@)
            && contains(cur[k].1, path) by {
            if k < prev.len() {
                assert(cur[k] == prev[k]);
            }
        }
    }
}

/// A LinkedIn search returns at most `limit` results, each a LinkedIn URL
/// with the searched path.
pub proof fn law_linkedin_results_match(
    rs: Seq<(Seq<char>, Seq<char>, Seq<char>)>,
    path: Seq<char>,
    limit: int,
)
    requires
        limit >= 0,
    ensures
        first_k(linkedin_hits(rs, path), limit).len() <= limit,
        forall|k: int|
            0 <= k < first_k(linkedin_hits(rs, path), limit).len() ==> contains(
                (#[trigger] first_k(linkedin_hits(rs, path), limit)[k]).1,
                "linkedin.com"@,
            ) && contains(first_k(linkedin_hits(rs, path), limit)[k].1, path),
{
    lemma_linkedin_hits(rs, path);
    let hits = linkedin_hits(rs, path);
    let f = first_k(hits, limit);
    assert forall|k: int| 0 <= k < f.len() implies contains((#[trigger] f[k]).1, "linkedin.com"@)
        && contains(f[k].1, path) by {
        assert(f[k] == hits[k]);
    }
}

/// A lead search for one title finds at most `per_title` leads, each a
/// LinkedIn profile, for that title and company.
pub proof fn law_leads_are_profiles(
    company: Seq<char>,
    title: Seq<char>,
    results: Seq<(Seq<char>, Seq<char>, Seq<char>)>,
    per_title: int,
)
    requires
        per_title >= 0,
    ensures
        leads_of(company, title, results, per_title).len() <= per_title,
        forall|k: int|
            0 <= k < leads_of(company, title, results, per_title).len() ==> {
                let l = #[trigger] leads_of(company, title, results, per_title)[k];
                &&& contains(l.3, "linkedin.com/in/"@)
                &&& l.1 == title
                &&& l.5 == company
                &&& l.0 == name_in_title(l.2)
            },
{
    lemma_profile_hits(results);
    let hits = profile_hits(results);
    let f = first_k(hits, per_title);
    assert forall|k: int| 0 <= k < f.len() implies contains((#[trigger] f[k]).1, "linkedin.com/in/"@) by {
        assert(f[k] == hits[k]);
    }
}

} // verus!
