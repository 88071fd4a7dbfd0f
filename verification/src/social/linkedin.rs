//! LinkedIn: URL normalization and reading public company and person pages.
use vstd::prelude::*;
use crate::social::{
    CompanyInfo, CookieEntry, LinkedInProfile, cookie_value, cookie_views, find_cookie, opt_view,
};
use crate::text::{
    append, before, before_str, chars_of, contains, contains_any, contains_any_str, contains_str,
    eq_str, join, join_of, join_strings, lines, lines_of, rfind, rfind_str, starts_with, starts_with_any, starts_with_any_str,
    starts_with_str,
    str_views, string_of, trim, trim_end_char, trim_end_char_of, trim_of, trim_start_matches,
    trim_start_matches_str, utf8_len, utf8_len_lt, views, vviews, find, find_str, replace,
    replace_str, to_vec, occurs_at, rfind_upto,
};
use crate::json::{array_fields, json_array_fields};
use crate::fetch::FetchError;

verus! {

// ---------------------------------------------------------------------------
// URL handling
// ---------------------------------------------------------------------------
/// A LinkedIn page URL from what a user typed: full URLs are kept, a bare
/// `linkedin.com/...` gets `https://`, anything else is a slug appended to `prefix`.
pub open spec fn normalized_url(input: Seq<char>, prefix: Seq<char>) -> Seq<char> {
    let i = trim_end_char(trim(input), '/');
    if starts_with(i, "http"@) {
        i
    } else if contains(i, "linkedin.com"@) {
        "https://"@ + i
    } else {
        prefix + i
    }
}

fn normalize_with(input: &str, prefix: &str) -> (url: String)
    ensures
        url@ == normalized_url(input@, prefix@),
{
    let c = chars_of(input);
    let i = trim_end_char_of(trim_of(c.as_slice()), '/');
    if starts_with_str(i, "http") {
        string_of(i)
    } else if contains_str(i, "linkedin.com") {
        let mut v = chars_of("https://");
        append(&mut v, i);
        string_of(v.as_slice())
    } else {
        let mut v = chars_of(prefix);
        append(&mut v, i);
        string_of(v.as_slice())
    }
}

/// The company page URL for a company slug, `linkedin.com/...` path or full URL.
pub fn normalize_company_url(input: &str) -> (url: String)
    ensures
        url@ == normalized_url(input@, "https://www.linkedin.com/company/"@),
{
    normalize_with(input, "https://www.linkedin.com/company/")
}

/// The profile URL for a username, `linkedin.com/...` path or full URL.
pub fn normalize_profile_url(input: &str) -> (url: String)
    ensures
        url@ == normalized_url(input@, "https://www.linkedin.com/in/"@),
{
    normalize_with(input, "https://www.linkedin.com/in/")
}

/// The username in a profile URL: what follows the last `/in/`; for other URLs
/// the last path segment; anything else as given (trailing `/` removed).
pub open spec fn username_of(url: Seq<char>) -> Seq<char> {
    let u = trim_end_char(url, '/');
    match rfind(u, "/in/"@) {
        Some(pos) => u.skip(pos + 4),
        None => if starts_with(u, "http"@) {
            match rfind(u, "/"@) {
                Some(p) => u.skip(p + 1),
                None => u,
            }
        } else {
            u
        },
    }
}

/// `/in/` occurs last at index 24 of `s` up to `i`, when it occurs at 24 and
/// nowhere after it up to `i`.
proof fn lemma_last_in_at(s: Seq<char>, i: int)
    requires
        24 <= i,
        occurs_at(s, "/in/"@, 24),
        forall|j: int| 24 < j <= i ==> !occurs_at(s, "/in/"@, j),
    ensures
        rfind_upto(s, "/in/"@, i) == Some(24int),
    decreases i,
{
    if i > 24 {
        lemma_last_in_at(s, i - 1);
    }
}

/// A username goes through its profile URL and back unchanged: for a
/// non-empty, trimmed username without `/` that neither starts with `http` nor
/// mentions `linkedin.com`, the username of its profile URL is itself.
pub proof fn law_username_round_trip(u: Seq<char>)
    requires
        u.len() > 0,
        trim(u) == u,
        forall|k: int| 0 <= k < u.len() ==> u[k] != '/',
        !starts_with(u, "http"@),
        !contains(u, "linkedin.com"@),
    ensures
        username_of(normalized_url(u, "https://www.linkedin.com/in/"@)) == u,
{
    reveal_strlit("https://www.linkedin.com/in/");
    reveal_strlit("/in/");
    let prefix = "https://www.linkedin.com/in/"@;
    assert(trim_end_char(u, '/') == u);
    let s = prefix + u;
    assert(normalized_url(u, prefix) == s);
    assert(s.last() == u.last());
    assert(trim_end_char(s, '/') == s);
    let p = "/in/"@;
    assert(s.subrange(24, 28) =~= p);
    assert(occurs_at(s, p, 24));
    assert forall|j: int| 24 < j <= s.len() - 4 implies !occurs_at(s, p, j) by {
        if occurs_at(s, p, j) {
            if j >= 28 {
                assert(s.subrange(j, j + 4)[0] == s[j]);
                assert(s[j] == u[j - 28]);
            } else if j < 27 {
                assert(s.subrange(j, j + 4)[0] == s[j]);
            } else {
                assert(s.subrange(j, j + 4)[3] == s[30]);
                assert(s[30] == u[2]);
            }
        }
    }
    lemma_last_in_at(s, s.len() - 4);
    assert(s.skip(28) =~= u);
}

/// Extracts the username from a profile URL or username.
pub fn extract_username(url: &str) -> (name: String)
    ensures
        name@ == username_of(url@),
{
    let c = chars_of(url);
    let u = trim_end_char_of(c.as_slice(), '/');
    proof {
        reveal_strlit("/in/");
        reveal_strlit("/");
    }
    match rfind_str(u, "/in/") {
        Some(pos) => {
            assert(pos + 4 <= u@.len());
            assert(u@.len() == u.len());
            string_of(&u[pos + 4..u.len()])
        },
        None => {
            if starts_with_str(u, "http") {
                match rfind_str(u, "/") {
                    Some(p) => {
                        assert(p + 1 <= u@.len());
                        assert(u@.len() == u.len());
                        string_of(&u[p + 1..u.len()])
                    },
                    None => string_of(u),
                }
            } else {
                string_of(u)
            }
        },
    }
}

// ---------------------------------------------------------------------------
// Page headings
// ---------------------------------------------------------------------------
/// The first line that is a `# ` heading or a `Title: ` line.
pub open spec fn first_heading(ls: Seq<Seq<char>>) -> Option<Seq<char>>
    decreases ls.len(),
{
    if ls.len() == 0 {
        None
    } else if starts_with(ls[0], "# "@) || starts_with(ls[0], "Title: "@) {
        Some(ls[0])
    } else {
        first_heading(ls.drop_first())
    }
}

/// A heading line without its `# ` and `Title: ` markers.
pub open spec fn heading_text(l: Seq<char>) -> Seq<char> {
    trim_start_matches(trim_start_matches(l, "# "@), "Title: "@)
}

fn first_heading_of(ls: &Vec<Vec<char>>) -> (r: Option<&[char]>)
    ensures
        r matches Some(l) ==> first_heading(vviews(ls@)) == Some(l@),
        r is None ==> first_heading(vviews(ls@)) is None,
{
    let mut i: usize = 0;
    assert(vviews(ls@).skip(0) =~= vviews(ls@));
    while i < ls.len()
        invariant
            i <= ls@.len(),
            first_heading(vviews(ls@)) == first_heading(vviews(ls@).skip(i as int)),
        decreases ls@.len() - i,
    {
        assert(vviews(ls@).skip(i as int)[0] == ls@[i as int]@);
        assert(vviews(ls@).skip(i as int).drop_first() =~= vviews(ls@).skip(i + 1));
        if starts_with_str(ls[i].as_slice(), "# ") || starts_with_str(ls[i].as_slice(), "Title: ") {
            return Some(ls[i].as_slice());
        }
        i = i + 1;
    }
    None
}

fn heading_text_of(l: &[char]) -> (r: &[char])
    ensures
        r@ == heading_text(l@),
{
    trim_start_matches_str(trim_start_matches_str(l, "# "), "Title: ")
}

// ---------------------------------------------------------------------------
// Company pages
// ---------------------------------------------------------------------------
/// Words that mark a line as the company's industry.
pub open spec fn industry_words() -> Seq<Seq<char>> {
    seq![
        "Information Technology"@,
        "Financial Services"@,
        "Software"@,
        "Banking"@,
        "Internet"@,
        "Computer"@,
        "Technology"@,
        "Legal"@,
        "Fintech"@,
        "Services"@,
    ]
}

/// Words that mark a line as the company's headquarters.
pub open spec fn hq_words() -> Seq<Seq<char>> {
    seq![
        ", India"@,
        ", Maharashtra"@,
        ", Karnataka"@,
        ", Haryana"@,
        ", Telangana"@,
        ", US"@,
        "Mumbai"@,
        "Bangalore"@,
        "Bengaluru"@,
        "Gurgaon"@,
        "Gurugram"@,
        "Hyderabad"@,
        "Pune"@,
        "Delhi"@,
    ]
}

/// The first trimmed line among lines `j..=hi` that mentions employees or people.
pub open spec fn size_from(ls: Seq<Seq<char>>, j: int, hi: int) -> Option<Seq<char>>
    decreases hi - j + 1,
{
    if j > hi || j < 0 || j >= ls.len() {
        None
    } else if contains(trim(ls[j]), "employees"@) || contains(trim(ls[j]), "people"@) {
        Some(trim(ls[j]))
    } else {
        size_from(ls, j + 1, hi)
    }
}

/// The window of lines around line `i` searched for a company size.
pub open spec fn window_lo(i: int) -> int {
    if i >= 3 {
        i - 3
    } else {
        0
    }
}

/// The last line of the window around line `i`.
pub open spec fn window_hi(ls: Seq<Seq<char>>, i: int) -> int {
    if i + 5 < ls.len() - 1 {
        i + 5
    } else {
        ls.len() - 1
    }
}

/// The end (exclusive) of the lines read as an About text after line `i`.
pub open spec fn about_end(ls: Seq<Seq<char>>, i: int) -> int {
    if i + 10 < ls.len() {
        i + 10
    } else {
        ls.len() as int
    }
}

/// The trimmed lines from `j` (before `end`) up to the first blank, heading, list
/// item or link line.
pub open spec fn about_lines(ls: Seq<Seq<char>>, j: int, end: int) -> Seq<Seq<char>>
    decreases end - j,
{
    if j >= end || j < 0 || j >= ls.len() {
        Seq::empty()
    } else {
        let d = trim(ls[j]);
        if d.len() == 0 || starts_with(d, "#"@) || starts_with(d, "*"@) || starts_with(d, "["@) {
            Seq::empty()
        } else {
            seq![d] + about_lines(ls, j + 1, end)
        }
    }
}

/// A line that opens the About section of a company page.
pub open spec fn is_about_heading(l: Seq<char>) -> bool {
    l == "About"@ || l == "## About"@ || starts_with(l, "About us"@)
}

/// What a company page scan has found so far.
pub struct CompanyScan {
    pub industry: Option<Seq<char>>,
    pub size: Option<Seq<char>>,
    pub description: Option<Seq<char>>,
    pub hq: Option<Seq<char>>,
}

/// How line `i` changes the scan. Each field keeps the first value found.
pub open spec fn company_step(ls: Seq<Seq<char>>, i: int, st: CompanyScan) -> CompanyScan {
    let l = trim(ls[i]);
    let desc = about_lines(ls, i + 1, about_end(ls, i));
    CompanyScan {
        size: if contains(l, "followers"@) && st.size is None {
            size_from(ls, window_lo(i), window_hi(ls, i))
        } else {
            st.size
        },
        industry: if st.industry is None && contains_any(l, industry_words()) && utf8_len(l) < 80
            && !contains(l, "http"@) {
            Some(l)
        } else {
            st.industry
        },
        description: if is_about_heading(l) && st.description is None && desc.len() > 0 {
            Some(join(desc, " "@))
        } else {
            st.description
        },
        hq: if st.hq is None && contains_any(l, hq_words()) && utf8_len(l) < 100 && !contains(
            l,
            "http"@,
        ) {
            Some(l)
        } else {
            st.hq
        },
    }
}

/// The scan after the first `n` lines.
pub open spec fn company_scan(ls: Seq<Seq<char>>, n: int) -> CompanyScan
    decreases n,
{
    if n <= 0 {
        CompanyScan { industry: None, size: None, description: None, hq: None }
    } else {
        company_step(ls, n - 1, company_scan(ls, n - 1))
    }
}

/// The company name a page's heading gives, or empty.
pub open spec fn heading_name(ls: Seq<Seq<char>>, sep: Seq<char>) -> Seq<char> {
    match first_heading(ls) {
        Some(l) => trim(before(heading_text(l), sep)),
        None => Seq::empty(),
    }
}

fn size_near(ls: &Vec<Vec<char>>, i: usize) -> (r: Option<Vec<char>>)
    requires
        i < ls@.len(),
    ensures
        opt_vview(r) == size_from(vviews(ls@), window_lo(i as int), window_hi(vviews(ls@), i as int)),
{
    let lo: usize = if i >= 3 {
        i - 3
    } else {
        0
    };
    let hi: usize = if ls.len() - 1 - i > 5 {
        i + 5
    } else {
        ls.len() - 1
    };
    let ghost all = vviews(ls@);
    let mut j = lo;
    while j <= hi
        invariant
            all == vviews(ls@),
            hi < ls@.len(),
            hi < ls.len(),
            lo <= j <= hi + 1,
            lo == window_lo(i as int),
            hi == window_hi(all, i as int),
            size_from(all, window_lo(i as int), window_hi(all, i as int)) == size_from(
                all,
                j as int,
                hi as int,
            ),
        decreases hi + 1 - j,
    {
        let t = trim_of(ls[j].as_slice());
        if contains_str(t, "employees") || contains_str(t, "people") {
            let v = crate::text::to_vec(t);
            return Some(v);
        }
        j = j + 1;
    }
    None
}

/// The view of an optional char vector.
pub open spec fn opt_vview(o: Option<Vec<char>>) -> Option<Seq<char>> {
    match o {
        Some(v) => Some(v@),
        None => None,
    }
}

fn about_after(ls: &Vec<Vec<char>>, i: usize) -> (r: Vec<Vec<char>>)
    requires
        i < ls@.len(),
    ensures
        vviews(r@) == about_lines(vviews(ls@), i + 1, about_end(vviews(ls@), i as int)),
{
    let end: usize = if ls.len() - i > 10 {
        i + 10
    } else {
        ls.len()
    };
    let ghost all = vviews(ls@);
    let mut out: Vec<Vec<char>> = Vec::new();
    let mut j = i + 1;
    while j < end
        invariant
            all == vviews(ls@),
            end <= ls@.len(),
            i + 1 <= j,
            end == about_end(all, i as int),
            about_lines(all, i + 1, end as int) == vviews(out@) + about_lines(all, j as int, end as int),
        decreases end - j,
    {
        let d = trim_of(ls[j].as_slice());
        if d.len() == 0 || starts_with_str(d, "#") || starts_with_str(d, "*") || starts_with_str(d, "[") {
            assert(vviews(out@) + about_lines(all, j as int, end as int) =~= vviews(out@));
            return out;
        }
        let ghost prev = vviews(out@);
        out.push(crate::text::to_vec(d));
        assert(vviews(out@) =~= prev.push(d@));
        assert(prev + about_lines(all, j as int, end as int) =~= vviews(out@) + about_lines(all, j + 1, end as int));
        j = j + 1;
    }
    assert(vviews(out@) + about_lines(all, j as int, end as int) =~= vviews(out@));
    out
}

fn opt_string(o: Option<Vec<char>>) -> (r: Option<String>)
    ensures
        opt_view(r) == opt_vview(o),
{
    match o {
        Some(v) => Some(string_of(v.as_slice())),
        None => None,
    }
}

/// What a company page scan has found so far, as it runs.
struct CompanyFound {
    industry: Option<Vec<char>>,
    size: Option<Vec<char>>,
    description: Option<Vec<char>>,
    hq: Option<Vec<char>>,
}

spec fn found_view(f: CompanyFound) -> CompanyScan {
    CompanyScan {
        industry: opt_vview(f.industry),
        size: opt_vview(f.size),
        description: opt_vview(f.description),
        hq: opt_vview(f.hq),
    }
}

fn industry_list() -> (r: [&'static str; 10])
    ensures
        str_views(r@) == industry_words(),
{
    let r = [
        "Information Technology",
        "Financial Services",
        "Software",
        "Banking",
        "Internet",
        "Computer",
        "Technology",
        "Legal",
        "Fintech",
        "Services",
    ];
    assert(str_views(r@) =~= industry_words());
    r
}

fn hq_list() -> (r: [&'static str; 14])
    ensures
        str_views(r@) == hq_words(),
{
    let r = [
        ", India",
        ", Maharashtra",
        ", Karnataka",
        ", Haryana",
        ", Telangana",
        ", US",
        "Mumbai",
        "Bangalore",
        "Bengaluru",
        "Gurgaon",
        "Gurugram",
        "Hyderabad",
        "Pune",
        "Delhi",
    ];
    assert(str_views(r@) =~= hq_words());
    r
}

/// `cur`, or the line `l` if nothing was found yet and `l` is a short, link-free
/// line mentioning one of `words`.
fn keep_or_line(cur: Option<Vec<char>>, l: &[char], words: &[&str], bound: usize) -> (r: Option<
    Vec<char>,
>)
    ensures
        opt_vview(r) == if cur is None && contains_any(l@, str_views(words@)) && utf8_len(l@)
            < bound && !contains(l@, "http"@) {
            Some(l@)
        } else {
            opt_vview(cur)
        },
{
    if cur.is_none() && contains_any_str(l, words) && utf8_len_lt(l, bound) && !contains_str(
        l,
        "http",
    ) {
        Some(crate::text::to_vec(l))
    } else {
        cur
    }
}

fn description_at(ls: &Vec<Vec<char>>, i: usize, l: &[char], cur: Option<Vec<char>>) -> (r: Option<
    Vec<char>,
>)
    requires
        i < ls@.len(),
    ensures
        opt_vview(r) == if is_about_heading(l@) && cur is None && about_lines(
            vviews(ls@),
            i + 1,
            about_end(vviews(ls@), i as int),
        ).len() > 0 {
            Some(
                join(about_lines(vviews(ls@), i + 1, about_end(vviews(ls@), i as int)), " "@),
            )
        } else {
            opt_vview(cur)
        },
{
    if (eq_str(l, "About") || eq_str(l, "## About") || starts_with_str(l, "About us"))
        && cur.is_none() {
        let desc = about_after(ls, i);
        if desc.len() > 0 {
            Some(join_of(&desc, " "))
        } else {
            cur
        }
    } else {
        cur
    }
}

fn scan_company_line(ls: &Vec<Vec<char>>, i: usize, f: CompanyFound) -> (g: CompanyFound)
    requires
        i < ls@.len(),
    ensures
        found_view(g) == company_step(vviews(ls@), i as int, found_view(f)),
{
    let ghost all = vviews(ls@);
    assert(all[i as int] == ls@[i as int]@);
    let industries = industry_list();
    let places = hq_list();
    let CompanyFound { industry, size, description, hq } = f;
    let l = trim_of(ls[i].as_slice());
    let size = if contains_str(l, "followers") && size.is_none() {
        size_near(ls, i)
    } else {
        size
    };
    let industry = keep_or_line(industry, l, &industries, 80);
    let description = description_at(ls, i, l, description);
    let hq = keep_or_line(hq, l, &places, 100);
    CompanyFound { industry, size, description, hq }
}

/// Reads a LinkedIn company page (as the markdown a reader service returns): the
/// name from the first heading (up to ` | `), and the first industry, size,
/// About text and headquarters lines it recognizes.
pub fn parse_company_markdown(md: &str, url: &str) -> (info: CompanyInfo)
    ensures
        info.name@ == heading_name(lines(md@), " | "@),
        info.domain is None,
        opt_view(info.industry) == company_scan(lines(md@), lines(md@).len() as int).industry,
        opt_view(info.size) == company_scan(lines(md@), lines(md@).len() as int).size,
        opt_view(info.description) == company_scan(
            lines(md@),
            lines(md@).len() as int,
        ).description,
        opt_view(info.hq) == company_scan(lines(md@), lines(md@).len() as int).hq,
        opt_view(info.linkedin_url) == Some(url@),
{
    let c = chars_of(md);
    let ls = lines_of(c.as_slice());
    let ghost all = lines(md@);
    let name = match first_heading_of(&ls) {
        Some(l) => string_of(trim_of(before_str(heading_text_of(l), " | "))),
        None => String::new(),
    };
    let mut f = CompanyFound { industry: None, size: None, description: None, hq: None };
    let mut i: usize = 0;
    while i < ls.len()
        invariant
            all == vviews(ls@),
            i <= ls@.len(),
            found_view(f) == company_scan(all, i as int),
        decreases ls@.len() - i,
    {
        f = scan_company_line(&ls, i, f);
        i = i + 1;
    }
    CompanyInfo {
        name,
        domain: None,
        industry: opt_string(f.industry),
        size: opt_string(f.size),
        hq: opt_string(f.hq),
        description: opt_string(f.description),
        linkedin_url: Some(string_of(chars_of(url).as_slice())),
    }
}

// ---------------------------------------------------------------------------
// Person pages
// ---------------------------------------------------------------------------
/// The section of a profile page a line belongs to.
#[derive(Clone, Copy)]
pub enum ProfileSection {
    Other,
    Experience,
    Education,
    About,
}

/// What a profile page scan has found so far.
pub struct ProfileScan {
    pub headline: Option<Seq<char>>,
    pub about: Option<Seq<char>>,
    pub experience: Seq<Seq<char>>,
    pub education: Seq<Seq<char>>,
    pub section: ProfileSection,
}

/// Prefixes that keep a line from being a headline.
pub open spec fn headline_bad_starts() -> Seq<Seq<char>> {
    seq!["["@, "*"@, "#"@]
}

/// Words that keep a line from being a headline.
pub open spec fn headline_bad_words() -> Seq<Seq<char>> {
    seq!["Sign in"@, "Join now"@, "LinkedIn"@, "http"@]
}

/// A line that can be the headline: 11 to 199 bytes, no link, list or heading
/// marker and no sign-in text.
pub open spec fn is_headline(l: Seq<char>) -> bool {
    &&& l.len() > 0
    &&& utf8_len(l) > 10
    &&& utf8_len(l) < 200
    &&& !starts_with_any(l, headline_bad_starts())
    &&& !contains_any(l, headline_bad_words())
}

/// A line kept as an experience or education entry.
pub open spec fn is_entry(l: Seq<char>) -> bool {
    l.len() > 0 && utf8_len(l) > 5 && !starts_with(l, "["@) && !starts_with(l, "*"@)
}

/// How one line changes the scan: section headings switch the section, other
/// headings leave any section, and other lines may become the headline, the
/// About text, or an entry (at most 10 experience and 5 education entries).
pub open spec fn profile_step(st: ProfileScan, line: Seq<char>) -> ProfileScan {
    let l = trim(line);
    if l == "Experience"@ || l == "## Experience"@ {
        ProfileScan { section: ProfileSection::Experience, ..st }
    } else if l == "Education"@ || l == "## Education"@ {
        ProfileScan { section: ProfileSection::Education, ..st }
    } else if l == "About"@ || l == "## About"@ {
        ProfileScan { section: ProfileSection::About, ..st }
    } else if starts_with(l, "## "@) || starts_with(l, "# "@) {
        ProfileScan { section: ProfileSection::Other, ..st }
    } else {
        let headline = if st.headline is None && is_headline(l) {
            Some(l)
        } else {
            st.headline
        };
        match st.section {
            ProfileSection::About => ProfileScan {
                headline,
                about: if l.len() > 0 && st.about is None {
                    Some(l)
                } else {
                    st.about
                },
                ..st
            },
            ProfileSection::Experience => ProfileScan {
                headline,
                experience: if is_entry(l) && st.experience.len() < 10 {
                    st.experience.push(l)
                } else {
                    st.experience
                },
                ..st
            },
            ProfileSection::Education => ProfileScan {
                headline,
                education: if is_entry(l) && st.education.len() < 5 {
                    st.education.push(l)
                } else {
                    st.education
                },
                ..st
            },
            ProfileSection::Other => ProfileScan { headline, ..st },
        }
    }
}

/// The scan after the lines `ls`.
pub open spec fn profile_scan(ls: Seq<Seq<char>>) -> ProfileScan
    decreases ls.len(),
{
    if ls.len() == 0 {
        ProfileScan {
            headline: None,
            about: None,
            experience: Seq::empty(),
            education: Seq::empty(),
            section: ProfileSection::Other,
        }
    } else {
        profile_step(profile_scan(ls.drop_last()), ls.last())
    }
}

/// The person's name a page's heading gives (up to ` - ` and ` | `), or empty.
pub open spec fn person_name(ls: Seq<Seq<char>>) -> Seq<char> {
    match first_heading(ls) {
        Some(l) => trim(before(before(heading_text(l), " - "@), " | "@)),
        None => Seq::empty(),
    }
}

/// A profile scan as it runs.
struct ProfileFound {
    headline: Option<Vec<char>>,
    about: Option<Vec<char>>,
    experience: Vec<String>,
    education: Vec<String>,
    section: ProfileSection,
}

spec fn profile_view(f: ProfileFound) -> ProfileScan {
    ProfileScan {
        headline: opt_vview(f.headline),
        about: opt_vview(f.about),
        experience: views(f.experience@),
        education: views(f.education@),
        section: f.section,
    }
}

fn is_headline_exec(l: &[char]) -> (r: bool)
    ensures
        r == is_headline(l@),
{
    let starts: [&str; 3] = ["[", "*", "#"];
    let words: [&str; 4] = ["Sign in", "Join now", "LinkedIn", "http"];
    assert(str_views(starts@) =~= headline_bad_starts());
    assert(str_views(words@) =~= headline_bad_words());
    l.len() > 0 && !utf8_len_lt(l, 11) && utf8_len_lt(l, 200) && !starts_with_any_str(l, &starts)
        && !contains_any_str(l, &words)
}

fn is_entry_exec(l: &[char]) -> (r: bool)
    ensures
        r == is_entry(l@),
{
    l.len() > 0 && !utf8_len_lt(l, 6) && !starts_with_str(l, "[") && !starts_with_str(l, "*")
}

fn scan_profile_line(line: &[char], f: ProfileFound) -> (g: ProfileFound)
    ensures
        profile_view(g) == profile_step(profile_view(f), line@),
{
    let l = trim_of(line);
    let ProfileFound { headline, about, experience, education, section } = f;
    if eq_str(l, "Experience") || eq_str(l, "## Experience") {
        return ProfileFound { headline, about, experience, education, section: ProfileSection::Experience };
    }
    if eq_str(l, "Education") || eq_str(l, "## Education") {
        return ProfileFound { headline, about, experience, education, section: ProfileSection::Education };
    }
    if eq_str(l, "About") || eq_str(l, "## About") {
        return ProfileFound { headline, about, experience, education, section: ProfileSection::About };
    }
    if starts_with_str(l, "## ") || starts_with_str(l, "# ") {
        return ProfileFound { headline, about, experience, education, section: ProfileSection::Other };
    }
    let headline = if headline.is_none() && is_headline_exec(l) {
        Some(crate::text::to_vec(l))
    } else {
        headline
    };
    let mut experience = experience;
    let mut education = education;
    let mut about = about;
    match section {
        ProfileSection::About => {
            if l.len() > 0 && about.is_none() {
                about = Some(crate::text::to_vec(l));
            }
        },
        ProfileSection::Experience => {
            if is_entry_exec(l) && experience.len() < 10 {
                let ghost prev = views(experience@);
                experience.push(string_of(l));
                assert(views(experience@) =~= prev.push(l@));
            }
        },
        ProfileSection::Education => {
            if is_entry_exec(l) && education.len() < 5 {
                let ghost prev = views(education@);
                education.push(string_of(l));
                assert(views(education@) =~= prev.push(l@));
            }
        },
        ProfileSection::Other => {},
    }
    ProfileFound { headline, about, experience, education, section }
}

/// Reads a LinkedIn person page (as the markdown a reader service returns): the
/// name from the first heading, the first headline-like line, the first line of
/// the About section and the entries of the Experience and Education sections.
pub fn parse_profile_markdown(md: &str, _url: &str) -> (p: LinkedInProfile)
    ensures
        p.name@ == person_name(lines(md@)),
        opt_view(p.headline) == profile_scan(lines(md@)).headline,
        opt_view(p.about) == profile_scan(lines(md@)).about,
        views(p.experience@) == profile_scan(lines(md@)).experience,
        views(p.education@) == profile_scan(lines(md@)).education,
        p.recent_posts@.len() == 0,
{
    let c = chars_of(md);
    let ls = lines_of(c.as_slice());
    let ghost all = lines(md@);
    let name = match first_heading_of(&ls) {
        Some(l) => string_of(trim_of(before_str(before_str(heading_text_of(l), " - "), " | "))),
        None => String::new(),
    };
    let mut f = ProfileFound {
        headline: None,
        about: None,
        experience: Vec::new(),
        education: Vec::new(),
        section: ProfileSection::Other,
    };
    let mut i: usize = 0;
    assert(all.take(0) =~= Seq::<Seq<char>>::empty());
    assert(views(f.experience@) =~= Seq::<Seq<char>>::empty());
    assert(views(f.education@) =~= Seq::<Seq<char>>::empty());
    while i < ls.len()
        invariant
            all == vviews(ls@),
            i <= ls@.len(),
            profile_view(f) == profile_scan(all.take(i as int)),
        decreases ls@.len() - i,
    {
        assert(all.take(i + 1).drop_last() =~= all.take(i as int));
        assert(all.take(i + 1).last() == ls@[i as int]@);
        f = scan_profile_line(ls[i].as_slice(), f);
        i = i + 1;
    }
    assert(all.take(ls@.len() as int) =~= all);
    LinkedInProfile {
        name,
        headline: opt_string(f.headline),
        about: opt_string(f.about),
        experience: f.experience,
        education: f.education,
        recent_posts: Vec::new(),
    }
}

// ---------------------------------------------------------------------------
// Profile pages loaded with a session
// ---------------------------------------------------------------------------
/// One item of a profile's embedded data: for each of `profile_keys`, the
/// field as a string and as an unsigned number.
pub open spec fn profile_keys() -> Seq<Seq<char>> {
    seq![
        "firstName"@,
        "lastName"@,
        "headline"@,
        "summary"@,
        "companyName"@,
        "title"@,
        "schoolName"@,
    ]
}

/// The string value of the field of `item` under `profile_keys()[k]`.
pub open spec fn item_text(item: Seq<(Option<Seq<char>>, Option<u64>)>, k: int) -> Option<Seq<char>> {
    if 0 <= k < item.len() {
        item[k].0
    } else {
        None
    }
}

/// A text, when it is not empty.
pub open spec fn non_empty(t: Option<Seq<char>>) -> Option<Seq<char>> {
    match t {
        Some(x) => if x.len() > 0 {
            Some(x)
        } else {
            None
        },
        None => None,
    }
}

/// The experience entry `title at company` of an item that has both.
pub open spec fn experience_entry(item: Seq<(Option<Seq<char>>, Option<u64>)>) -> Option<Seq<char>> {
    match (item_text(item, 4), item_text(item, 5)) {
        (Some(c), Some(t)) => Some(t + " at "@ + c),
        _ => None,
    }
}

/// A profile being read from a page.
pub struct ProfileDraft {
    pub name: Seq<char>,
    pub headline: Option<Seq<char>>,
    pub about: Option<Seq<char>>,
    pub experience: Seq<Seq<char>>,
    pub education: Seq<Seq<char>>,
}

/// How one embedded item fills the draft: the first non-empty first and last
/// name give the name, the first non-empty headline and summary are kept, and
/// every company with a title and every non-empty school is added.
pub open spec fn page_item_step(d: ProfileDraft, item: Seq<(Option<Seq<char>>, Option<u64>)>) -> ProfileDraft {
    ProfileDraft {
        name: match (item_text(item, 0), item_text(item, 1)) {
            (Some(f), Some(l)) => if f.len() > 0 && l.len() > 0 && d.name.len() == 0 {
                f + " "@ + l
            } else {
                d.name
            },
            _ => d.name,
        },
        headline: if d.headline is None {
            non_empty(item_text(item, 2))
        } else {
            d.headline
        },
        about: if d.about is None {
            non_empty(item_text(item, 3))
        } else {
            d.about
        },
        experience: match experience_entry(item) {
            Some(e) => d.experience.push(e),
            None => d.experience,
        },
        education: match non_empty(item_text(item, 6)) {
            Some(s) => d.education.push(s),
            None => d.education,
        },
    }
}

/// The draft after the items `items`, in order.
pub open spec fn page_items(d: ProfileDraft, items: Seq<Seq<(Option<Seq<char>>, Option<u64>)>>) -> ProfileDraft
    decreases items.len(),
{
    if items.len() == 0 {
        d
    } else {
        page_item_step(page_items(d, items.drop_last()), items.last())
    }
}

/// The `firstName lastName` an embedded item gives, when both are non-empty.
pub open spec fn item_person(item: Seq<(Option<Seq<char>>, Option<u64>)>) -> Option<Seq<char>> {
    match (non_empty(item_text(item, 0)), non_empty(item_text(item, 1))) {
        (Some(f), Some(l)) => Some(f + " "@ + l),
        _ => None,
    }
}

/// Reading items in two parts is reading them all.
proof fn lemma_page_items_append(
    d: ProfileDraft,
    a: Seq<Seq<(Option<Seq<char>>, Option<u64>)>>,
    b: Seq<Seq<(Option<Seq<char>>, Option<u64>)>>,
)
    ensures
        page_items(d, a + b) == page_items(page_items(d, a), b),
    decreases b.len(),
{
    if b.len() == 0 {
        assert(a + b =~= a);
    } else {
        lemma_page_items_append(d, a, b.drop_last());
        assert((a + b).drop_last() =~= a + b.drop_last());
        assert((a + b).last() == b.last());
    }
}

/// Once the draft has a name, no later item changes it.
proof fn lemma_name_kept(d: ProfileDraft, items: Seq<Seq<(Option<Seq<char>>, Option<u64>)>>)
    requires
        d.name.len() > 0,
    ensures
        page_items(d, items).name == d.name,
    decreases items.len(),
{
    if items.len() > 0 {
        lemma_name_kept(d, items.drop_last());
    }
}

/// Items without a person leave an empty name empty.
proof fn lemma_no_person_no_name(d: ProfileDraft, items: Seq<Seq<(Option<Seq<char>>, Option<u64>)>>)
    requires
        d.name.len() == 0,
        forall|k: int| 0 <= k < items.len() ==> item_person(#[trigger] items[k]) is None,
    ensures
        page_items(d, items).name.len() == 0,
    decreases items.len(),
{
    if items.len() > 0 {
        let p = items.drop_last();
        assert forall|k: int| 0 <= k < p.len() implies item_person(#[trigger] p[k]) is None by {
            assert(p[k] == items[k]);
        }
        lemma_no_person_no_name(d, p);
        assert(item_person(items[items.len() - 1]) is None);
    }
}

/// The name read from a page's embedded items is the first person in item
/// order: when item `j` is the first with a non-empty first and last name,
/// the name is that item's `firstName lastName`, whatever later items hold.
pub proof fn law_first_person_named(d: ProfileDraft, items: Seq<Seq<(Option<Seq<char>>, Option<u64>)>>, j: int)
    requires
        d.name.len() == 0,
        0 <= j < items.len(),
        item_person(items[j]) is Some,
        forall|k: int| 0 <= k < j ==> item_person(#[trigger] items[k]) is None,
    ensures
        page_items(d, items).name == item_person(items[j]).unwrap(),
{
    let a = items.take(j);
    let b = seq![items[j]];
    let c = items.skip(j + 1);
    assert(items =~= (a + b) + c);
    assert forall|k: int| 0 <= k < a.len() implies item_person(#[trigger] a[k]) is None by {
        assert(a[k] == items[k]);
    }
    lemma_no_person_no_name(d, a);
    lemma_page_items_append(d, a, b);
    lemma_page_items_append(d, a + b, c);
    let da = page_items(d, a);
    assert(b.drop_last() =~= Seq::<Seq<(Option<Seq<char>>, Option<u64>)>>::empty());
    assert(page_items(da, b.drop_last()) == da);
    assert(b.last() == items[j]);
    assert(page_items(da, b) == page_item_step(da, items[j]));
    lemma_name_kept(page_items(d, a + b), c);
}

/// A `<code>` text with its HTML entities for quotes, ampersands and angle
/// brackets decoded.
pub open spec fn decode_entities(t: Seq<char>) -> Seq<char> {
    replace(
        replace(replace(replace(t, "&quot;"@, "\""@), "&amp;"@, "&"@), "&lt;"@, "<"@),
        "&gt;"@,
        ">"@,
    )
}

/// The embedded items of a `<code>` text: none unless it mentions both name
/// fields and decodes to JSON; then the items of its `included` array, if any.
pub open spec fn code_items(text: Seq<char>) -> Option<Seq<Seq<(Option<Seq<char>>, Option<u64>)>>> {
    if contains(text, "firstName"@) && contains(text, "lastName"@) {
        match json_array_fields(decode_entities(text), "included"@, profile_keys()) {
            Ok(Some(items)) => Some(items),
            Ok(None) => Some(Seq::empty()),
            Err(_) => None,
        }
    } else {
        None
    }
}

/// The draft after the `<code>` texts `texts`: each one with embedded items
/// fills it, and the reading stops after the first one that leaves a name.
pub open spec fn code_scan(d: ProfileDraft, texts: Seq<Seq<char>>) -> ProfileDraft
    decreases texts.len(),
{
    if texts.len() == 0 {
        d
    } else {
        match code_items(texts[0]) {
            Some(items) => {
                let d2 = page_items(d, items);
                if d2.name.len() > 0 {
                    d2
                } else {
                    code_scan(d2, texts.drop_first())
                }
            },
            None => code_scan(d, texts.drop_first()),
        }
    }
}

/// A draft with nothing in it.
pub open spec fn empty_draft() -> ProfileDraft {
    ProfileDraft {
        name: Seq::empty(),
        headline: None,
        about: None,
        experience: Seq::empty(),
        education: Seq::empty(),
    }
}

/// A page title `Name - Headline | LinkedIn` read when the draft has no name:
/// the trimmed text before ` - ` is the name, and the trimmed text between it
/// and ` | ` the headline when none is known.
pub open spec fn title_fallback(d: ProfileDraft, title: Option<Seq<char>>) -> ProfileDraft {
    if d.name.len() > 0 {
        d
    } else {
        match title {
            Some(t) => match find(t, " - "@) {
                Some(p) => ProfileDraft {
                    name: trim(t.take(p)),
                    headline: if d.headline is None {
                        match find(t.skip(p + 3), " | "@) {
                            Some(q) => Some(trim(t.skip(p + 3).take(q))),
                            None => None,
                        }
                    } else {
                        d.headline
                    },
                    ..d
                },
                None => d,
            },
            None => d,
        }
    }
}

/// The profile a page gives: the embedded data, then the title, then the
/// username as the name of last resort.
pub open spec fn page_profile(texts: Seq<Seq<char>>, title: Option<Seq<char>>, username: Seq<char>) -> ProfileDraft {
    let d = title_fallback(code_scan(empty_draft(), texts), title);
    if d.name.len() == 0 {
        ProfileDraft { name: username, ..d }
    } else {
        d
    }
}

/// The text of every `<code>` element of an HTML document, in document order,
/// as `scraper` reads it.
pub uninterp spec fn code_texts(html: Seq<char>) -> Seq<Seq<char>>;

/// The text of the first `<title>` element of an HTML document, if it has one,
/// as `scraper` reads it.
pub uninterp spec fn first_title_text(html: Seq<char>) -> Option<Seq<char>>;

/// `scraper`: parses `html` and collects the text of each `code` element.
#[verifier::external_body]
fn select_code_texts(html: &str) -> (texts: Vec<String>)
    ensures
        views(texts@) == code_texts(html@),
{
    let doc = scraper::Html::parse_document(html);
    let sel = scraper::Selector::parse("code").unwrap();
    doc.select(&sel).map(|e| e.text().collect::<String>()).collect()
}

/// `scraper`: parses `html` and collects the text of the first `title`
/// element, if there is one.
#[verifier::external_body]
fn select_first_title(html: &str) -> (title: Option<String>)
    ensures
        opt_view(title) == first_title_text(html@),
{
    let doc = scraper::Html::parse_document(html);
    let sel = scraper::Selector::parse("title").unwrap();
    doc.select(&sel).next().map(|e| e.text().collect::<String>())
}

/// A profile draft as it is filled.
struct DraftFound {
    name: Vec<char>,
    headline: Option<Vec<char>>,
    about: Option<Vec<char>>,
    experience: Vec<String>,
    education: Vec<String>,
}

spec fn draft_view(f: DraftFound) -> ProfileDraft {
    ProfileDraft {
        name: f.name@,
        headline: opt_vview(f.headline),
        about: opt_vview(f.about),
        experience: views(f.experience@),
        education: views(f.education@),
    }
}

fn field_text(item: &Vec<(Option<String>, Option<u64>)>, k: usize) -> (t: Option<Vec<char>>)
    ensures
        opt_vview(t) == item_text(crate::json::row_view(*item), k as int),
{
    if k < item.len() {
        match &item[k].0 {
            Some(s) => Some(chars_of(s.as_str())),
            None => None,
        }
    } else {
        None
    }
}

fn non_empty_of(t: Option<Vec<char>>) -> (r: Option<Vec<char>>)
    ensures
        opt_vview(r) == non_empty(opt_vview(t)),
{
    match t {
        Some(x) => if x.len() > 0 {
            Some(x)
        } else {
            None
        },
        None => None,
    }
}

fn experience_of(item: &Vec<(Option<String>, Option<u64>)>) -> (e: Option<String>)
    ensures
        opt_view(e) == experience_entry(crate::json::row_view(*item)),
{
    match (field_text(item, 4), field_text(item, 5)) {
        (Some(c), Some(t)) => {
            let mut v = t;
            append_str_lit(&mut v, " at ");
            append(&mut v, c.as_slice());
            Some(string_of(v.as_slice()))
        },
        _ => None,
    }
}

fn append_str_lit(v: &mut Vec<char>, s: &str)
    ensures
        final(v)@ == old(v)@ + s@,
{
    crate::text::append_str(v, s);
}

fn page_item(f: DraftFound, item: &Vec<(Option<String>, Option<u64>)>) -> (g: DraftFound)
    ensures
        draft_view(g) == page_item_step(draft_view(f), crate::json::row_view(*item)),
{
    let ghost it = crate::json::row_view(*item);
    let DraftFound { name, headline, about, experience, education } = f;
    let name = match (field_text(item, 0), field_text(item, 1)) {
        (Some(first), Some(last)) => if first.len() > 0 && last.len() > 0 && name.len() == 0 {
            let mut v = first;
            append_str_lit(&mut v, " ");
            append(&mut v, last.as_slice());
            v
        } else {
            name
        },
        _ => name,
    };
    let headline = if headline.is_none() {
        non_empty_of(field_text(item, 2))
    } else {
        headline
    };
    let about = if about.is_none() {
        non_empty_of(field_text(item, 3))
    } else {
        about
    };
    let mut experience = experience;
    match experience_of(item) {
        Some(e) => {
            let ghost prev = views(experience@);
            let ghost ev = e@;
            experience.push(e);
            assert(views(experience@) =~= prev.push(ev));
        },
        None => {},
    }
    let mut education = education;
    match non_empty_of(field_text(item, 6)) {
        Some(s) => {
            let ghost prev = views(education@);
            education.push(string_of(s.as_slice()));
            assert(views(education@) =~= prev.push(s@));
        },
        None => {},
    }
    DraftFound { name, headline, about, experience, education }
}

fn page_items_of(f: DraftFound, items: &Vec<Vec<(Option<String>, Option<u64>)>>) -> (g: DraftFound)
    ensures
        draft_view(g) == page_items(draft_view(f), crate::json::rows_view(items@)),
{
    let ghost all = crate::json::rows_view(items@);
    let ghost d0 = draft_view(f);
    let mut g = f;
    let mut i: usize = 0;
    assert(all.take(0) =~= Seq::<Seq<(Option<Seq<char>>, Option<u64>)>>::empty());
    while i < items.len()
        invariant
            all == crate::json::rows_view(items@),
            i <= items@.len(),
            draft_view(g) == page_items(d0, all.take(i as int)),
        decreases items@.len() - i,
    {
        assert(all.take(i + 1).drop_last() =~= all.take(i as int));
        assert(all.take(i + 1).last() == crate::json::row_view(items@[i as int]));
        g = page_item(g, &items[i]);
        i = i + 1;
    }
    assert(all.take(items@.len() as int) =~= all);
    g
}

fn decode_entities_of(t: &str) -> (r: String)
    ensures
        r@ == decode_entities(t@),
{
    let c = chars_of(t);
    let a = replace_str(c.as_slice(), "&quot;", "\"");
    let b = replace_str(a.as_slice(), "&amp;", "&");
    let d = replace_str(b.as_slice(), "&lt;", "<");
    let e = replace_str(d.as_slice(), "&gt;", ">");
    string_of(e.as_slice())
}

fn profile_key_list() -> (keys: Vec<String>)
    ensures
        views(keys@) == profile_keys(),
{
    let mut keys: Vec<String> = Vec::new();
    keys.push(string_of(chars_of("firstName").as_slice()));
    keys.push(string_of(chars_of("lastName").as_slice()));
    keys.push(string_of(chars_of("headline").as_slice()));
    keys.push(string_of(chars_of("summary").as_slice()));
    keys.push(string_of(chars_of("companyName").as_slice()));
    keys.push(string_of(chars_of("title").as_slice()));
    keys.push(string_of(chars_of("schoolName").as_slice()));
    assert(views(keys@) =~= profile_keys());
    keys
}

fn code_items_of(text: &str) -> (r: Option<Vec<Vec<(Option<String>, Option<u64>)>>>)
    ensures
        match r {
            Some(items) => code_items(text@) == Some(crate::json::rows_view(items@)),
            None => code_items(text@) is None,
        },
{
    let c = chars_of(text);
    if !(contains_str(c.as_slice(), "firstName") && contains_str(c.as_slice(), "lastName")) {
        return None;
    }
    let decoded = decode_entities_of(text);
    let keys = profile_key_list();
    let included = string_of(chars_of("included").as_slice());
    match array_fields(decoded.as_str(), included.as_str(), &keys) {
        Ok(Some(items)) => Some(items),
        Ok(None) => {
            let v: Vec<Vec<(Option<String>, Option<u64>)>> = Vec::new();
            assert(crate::json::rows_view(v@) =~= Seq::<Seq<(Option<Seq<char>>, Option<u64>)>>::empty());
            Some(v)
        },
        Err(_) => None,
    }
}

/// The profile from a page's `<code>` texts, its title and the username: the
/// embedded data first, then the title, then the username as the name.
pub fn profile_from_page(texts: &Vec<String>, title: Option<String>, username: &str) -> (p: LinkedInProfile)
    ensures
        p.name@ == page_profile(views(texts@), opt_view(title), username@).name,
        opt_view(p.headline) == page_profile(views(texts@), opt_view(title), username@).headline,
        opt_view(p.about) == page_profile(views(texts@), opt_view(title), username@).about,
        views(p.experience@) == page_profile(views(texts@), opt_view(title), username@).experience,
        views(p.education@) == page_profile(views(texts@), opt_view(title), username@).education,
        p.recent_posts@.len() == 0,
{
    let ghost all = views(texts@);
    let mut f = DraftFound {
        name: Vec::new(),
        headline: None,
        about: None,
        experience: Vec::new(),
        education: Vec::new(),
    };
    assert(draft_view(f) =~= empty_draft()) by {
        assert(views(f.experience@) =~= Seq::<Seq<char>>::empty());
        assert(views(f.education@) =~= Seq::<Seq<char>>::empty());
    }
    let ghost target = code_scan(empty_draft(), all);
    let mut i: usize = 0;
    assert(all.skip(0) =~= all);
    while i < texts.len()
        invariant
            all == views(texts@),
            i <= texts@.len(),
            target == code_scan(draft_view(f), all.skip(i as int)),
        ensures
            i == texts@.len(),
            target == code_scan(draft_view(f), all.skip(i as int)),
        decreases texts@.len() - i,
    {
        assert(all.skip(i as int)[0] == texts@[i as int]@);
        assert(all.skip(i as int).drop_first() =~= all.skip(i + 1));
        match code_items_of(texts[i].as_str()) {
            Some(items) => {
                f = page_items_of(f, &items);
                if f.name.len() > 0 {
                    assert(target == draft_view(f));
                    assert(all.skip(texts@.len() as int) =~= Seq::<Seq<char>>::empty());
                    i = texts.len();
                    break;
                }
            },
            None => {},
        }
        i = i + 1;
    }
    assert(all.skip(i as int) =~= Seq::<Seq<char>>::empty());
    assert(target == draft_view(f));
    let DraftFound { name, headline, about, experience, education } = f;
    let (name, headline) = if name.len() > 0 {
        (name, headline)
    } else {
        match &title {
            Some(t) => {
                let tc = chars_of(t.as_str());
                match find_str(tc.as_slice(), " - ") {
                    Some(p) => {
                        proof {
                            crate::text::lemma_find_from(tc@, " - "@, 0);
                            reveal_strlit(" - ");
                        }
                        let n = to_vec(trim_of(&tc[0..p]));
                        assert(tc@.take(p as int) =~= tc@.subrange(0, p as int));
                        let h = if headline.is_none() {
                            let rest = &tc[p + 3..tc.len()];
                            assert(rest@ =~= tc@.skip(p + 3));
                            match find_str(rest, " | ") {
                                Some(q) => {
                                    proof {
                                        crate::text::lemma_find_from(rest@, " | "@, 0);
                                        reveal_strlit(" | ");
                                    }
                                    assert(rest@.take(q as int) =~= rest@.subrange(0, q as int));
                                    Some(to_vec(trim_of(&rest[0..q])))
                                },
                                None => None,
                            }
                        } else {
                            headline
                        };
                        (n, h)
                    },
                    None => (name, headline),
                }
            },
            None => (name, headline),
        }
    };
    let name = if name.len() == 0 {
        chars_of(username)
    } else {
        name
    };
    LinkedInProfile {
        name: string_of(name.as_slice()),
        headline: opt_string(headline),
        about: opt_string(about),
        experience,
        education,
        recent_posts: Vec::new(),
    }
}

/// Reads a LinkedIn profile page loaded with a session: the profile JSON that
/// the page embeds in `<code>` elements, with the page title and the username
/// as fallbacks for the name.
pub fn parse_html_profile(html: &str, username: &str) -> (p: LinkedInProfile)
    ensures
        p.name@ == page_profile(code_texts(html@), first_title_text(html@), username@).name,
        opt_view(p.headline) == page_profile(code_texts(html@), first_title_text(html@), username@).headline,
        opt_view(p.about) == page_profile(code_texts(html@), first_title_text(html@), username@).about,
        views(p.experience@) == page_profile(code_texts(html@), first_title_text(html@), username@).experience,
        views(p.education@) == page_profile(code_texts(html@), first_title_text(html@), username@).education,
        p.recent_posts@.len() == 0,
{
    let texts = select_code_texts(html);
    let title = select_first_title(html);
    profile_from_page(&texts, title, username)
}

/// How one item of an API response fills the profile: every first and last
/// name pair, headline and summary replaces the one before, and every company
/// with a title and every school is added.
pub open spec fn api_item_step(d: ProfileDraft, item: Seq<(Option<Seq<char>>, Option<u64>)>) -> ProfileDraft {
    ProfileDraft {
        name: match (item_text(item, 0), item_text(item, 1)) {
            (Some(f), Some(l)) => f + " "@ + l,
            _ => d.name,
        },
        headline: match item_text(item, 2) {
            Some(h) => Some(h),
            None => d.headline,
        },
        about: match item_text(item, 3) {
            Some(a) => Some(a),
            None => d.about,
        },
        experience: match experience_entry(item) {
            Some(e) => d.experience.push(e),
            None => d.experience,
        },
        education: match item_text(item, 6) {
            Some(sc) => d.education.push(sc),
            None => d.education,
        },
    }
}

/// The profile after the API items `items`, in order.
pub open spec fn api_items(d: ProfileDraft, items: Seq<Seq<(Option<Seq<char>>, Option<u64>)>>) -> ProfileDraft
    decreases items.len(),
{
    if items.len() == 0 {
        d
    } else {
        api_item_step(api_items(d, items.drop_last()), items.last())
    }
}

/// The profile an API response gives, starting from the username as the name;
/// `None` when the response is not JSON.
pub open spec fn api_profile(body: Seq<char>, username: Seq<char>) -> Result<ProfileDraft, Seq<char>> {
    let start = ProfileDraft { name: username, ..empty_draft() };
    match json_array_fields(body, "included"@, profile_keys()) {
        Ok(Some(items)) => Ok(api_items(start, items)),
        Ok(None) => Ok(start),
        Err(e) => Err(e),
    }
}

fn api_item(f: DraftFound, item: &Vec<(Option<String>, Option<u64>)>) -> (g: DraftFound)
    ensures
        draft_view(g) == api_item_step(draft_view(f), crate::json::row_view(*item)),
{
    let DraftFound { name, headline, about, experience, education } = f;
    let name = match (field_text(item, 0), field_text(item, 1)) {
        (Some(first), Some(last)) => {
            let mut v = first;
            append_str_lit(&mut v, " ");
            append(&mut v, last.as_slice());
            v
        },
        _ => name,
    };
    let headline = match field_text(item, 2) {
        Some(h) => Some(h),
        None => headline,
    };
    let about = match field_text(item, 3) {
        Some(a) => Some(a),
        None => about,
    };
    let mut experience = experience;
    match experience_of(item) {
        Some(e) => {
            let ghost prev = views(experience@);
            let ghost ev = e@;
            experience.push(e);
            assert(views(experience@) =~= prev.push(ev));
        },
        None => {},
    }
    let mut education = education;
    match field_text(item, 6) {
        Some(sc) => {
            let ghost prev = views(education@);
            education.push(string_of(sc.as_slice()));
            assert(views(education@) =~= prev.push(sc@));
        },
        None => {},
    }
    DraftFound { name, headline, about, experience, education }
}

/// Reads a profile from a LinkedIn API response: the name (the username until
/// an item names the person), headline, summary, experience and schools of its
/// `included` items; a response that is not JSON is an error.
pub fn parse_voyager_profile(body: &str, username: &str) -> (r: Result<LinkedInProfile, FetchError>)
    ensures
        match api_profile(body@, username@) {
            Ok(d) => r matches Ok(p) && p.name@ == d.name && opt_view(p.headline) == d.headline
                && opt_view(p.about) == d.about && views(p.experience@) == d.experience
                && views(p.education@) == d.education && p.recent_posts@.len() == 0,
            Err(e) => r matches Err(FetchError::HttpError(m)) && m@
                == "Failed to parse LinkedIn response: "@ + e,
        },
{
    let keys = profile_key_list();
    let included = string_of(chars_of("included").as_slice());
    let rows = match array_fields(body, included.as_str(), &keys) {
        Ok(Some(items)) => items,
        Ok(None) => {
            let v: Vec<Vec<(Option<String>, Option<u64>)>> = Vec::new();
            v
        },
        Err(e) => {
            let mut m = chars_of("Failed to parse LinkedIn response: ");
            append(&mut m, chars_of(e.as_str()).as_slice());
            return Err(FetchError::HttpError(string_of(m.as_slice())));
        },
    };
    let ghost all = crate::json::rows_view(rows@);
    let mut f = DraftFound {
        name: chars_of(username),
        headline: None,
        about: None,
        experience: Vec::new(),
        education: Vec::new(),
    };
    let ghost start = draft_view(f);
    assert(start == ProfileDraft { name: username@, ..empty_draft() }) by {
        assert(views(f.experience@) =~= Seq::<Seq<char>>::empty());
        assert(views(f.education@) =~= Seq::<Seq<char>>::empty());
    }
    assert(all.take(0) =~= Seq::<Seq<(Option<Seq<char>>, Option<u64>)>>::empty());
    let mut i: usize = 0;
    while i < rows.len()
        invariant
            all == crate::json::rows_view(rows@),
            i <= rows@.len(),
            draft_view(f) == api_items(start, all.take(i as int)),
        decreases rows@.len() - i,
    {
        assert(all.take(i + 1).drop_last() =~= all.take(i as int));
        assert(all.take(i + 1).last() == crate::json::row_view(rows@[i as int]));
        f = api_item(f, &rows[i]);
        i = i + 1;
    }
    assert(all.take(rows@.len() as int) =~= all);
    assert(all.len() == 0 ==> all =~= Seq::<Seq<(Option<Seq<char>>, Option<u64>)>>::empty());
    Ok(LinkedInProfile {
        name: string_of(f.name.as_slice()),
        headline: opt_string(f.headline),
        about: opt_string(f.about),
        experience: f.experience,
        education: f.education,
        recent_posts: Vec::new(),
    })
}

/// A LinkedIn session from exported cookies: the `Cookie` header with every
/// cookie, and the CSRF token.
pub struct LinkedInSession {
    pub cookie_header: String,
    pub csrf_token: String,
}

/// The `Cookie` header for cookies: `name=value` pairs joined with `; `.
pub open spec fn cookie_header_of(cs: Seq<(Seq<char>, Seq<char>)>) -> Seq<char> {
    join(cookie_pairs(cs), "; "@)
}

/// Each cookie as `name=value`.
pub open spec fn cookie_pairs(cs: Seq<(Seq<char>, Seq<char>)>) -> Seq<Seq<char>> {
    cs.map_values(|c: (Seq<char>, Seq<char>)| c.0 + "="@ + c.1)
}

/// A text with its leading and trailing `"` removed (`str::trim_matches('"')`).
pub open spec fn unquoted(s: Seq<char>) -> Seq<char> {
    trim_end_char(crate::text::trim_start_char(s, '"'), '"')
}

/// A session from exported LinkedIn cookies; without an `li_at` cookie there
/// is none. The CSRF token is the first `JSESSIONID` value without its quotes,
/// or empty.
pub fn linkedin_session(cookies: &Vec<CookieEntry>) -> (r: Result<LinkedInSession, FetchError>)
    ensures
        cookie_value(cookie_views(cookies@), "li_at"@) is None ==> (r matches Err(
            FetchError::HttpError(m),
        ) && m@ == "LinkedIn cookie missing 'li_at'. Re-export cookies from browser."@),
        cookie_value(cookie_views(cookies@), "li_at"@) is Some ==> (r matches Ok(sess)
            && sess.cookie_header@ == cookie_header_of(cookie_views(cookies@))
            && sess.csrf_token@ == match cookie_value(cookie_views(cookies@), "JSESSIONID"@) {
            Some(v) => unquoted(v),
            None => Seq::empty(),
        }),
{
    if find_cookie(cookies, "li_at").is_none() {
        return Err(
            FetchError::HttpError(
                string_of(
                    chars_of("LinkedIn cookie missing 'li_at'. Re-export cookies from browser.").as_slice(),
                ),
            ),
        );
    }
    let csrf_token = match find_cookie(cookies, "JSESSIONID") {
        Some(v) => {
            let c = chars_of(v.as_str());
            string_of(trim_end_char_of(crate::text::trim_start_char_of(c.as_slice(), '"'), '"'))
        },
        None => String::new(),
    };
    let ghost all = cookie_views(cookies@);
    let mut pairs: Vec<String> = Vec::new();
    let mut i: usize = 0;
    while i < cookies.len()
        invariant
            all == cookie_views(cookies@),
            i <= cookies@.len(),
            views(pairs@) == cookie_pairs(all.take(i as int)),
        decreases cookies@.len() - i,
    {
        let mut v = chars_of(cookies[i].name.as_str());
        append_str_lit(&mut v, "=");
        append(&mut v, chars_of(cookies[i].value.as_str()).as_slice());
        let ghost prev = views(pairs@);
        assert(all[i as int] == (cookies@[i as int].name@, cookies@[i as int].value@));
        assert(v@ == all[i as int].0 + "="@ + all[i as int].1);
        let pair = string_of(v.as_slice());
        pairs.push(pair);
        assert(views(pairs@) =~= prev.push(v@));
        assert(all.take(i + 1) =~= all.take(i as int).push(all[i as int]));
        assert(views(pairs@) =~= cookie_pairs(all.take(i + 1)));
        i = i + 1;
    }
    assert(all.take(cookies@.len() as int) =~= all);
    let header = join_strings(&pairs, "; ");
    Ok(LinkedInSession { cookie_header: string_of(header.as_slice()), csrf_token })
}

/// The profile page URL of a username.
pub fn profile_page_url(username: &str) -> (u: String)
    ensures
        u@ == "https://www.linkedin.com/in/"@ + username@ + "/"@,
{
    let mut v = chars_of("https://www.linkedin.com/in/");
    append(&mut v, chars_of(username).as_slice());
    append_str_lit(&mut v, "/");
    string_of(v.as_slice())
}

/// The error a profile page answer with status `status` gives, if any: a
/// redirect means an expired session, 999 a block, and any other status but
/// 200 an error.
pub fn profile_status_check(status: u16) -> (r: Result<(), FetchError>)
    ensures
        status == 200 <==> r is Ok,
        (status == 301 || status == 302) ==> (r matches Err(FetchError::HttpError(m)) && m@
            == "LinkedIn session expired (302 redirect). Re-export cookies from browser."@),
        status == 999 ==> (r matches Err(FetchError::HttpError(m)) && m@
            == "LinkedIn blocked request (999). Account may need warming up."@),
        (status != 200 && status != 301 && status != 302 && status != 999) ==> (r matches Err(
            FetchError::HttpError(m),
        ) && m@ == "LinkedIn returned status "@ + crate::text::decimal(status as nat)),
{
    if status == 302 || status == 301 {
        return Err(
            FetchError::HttpError(
                string_of(
                    chars_of(
                        "LinkedIn session expired (302 redirect). Re-export cookies from browser.",
                    ).as_slice(),
                ),
            ),
        );
    }
    if status == 999 {
        return Err(
            FetchError::HttpError(
                string_of(chars_of("LinkedIn blocked request (999). Account may need warming up.").as_slice()),
            ),
        );
    }
    if status != 200 {
        let mut v = chars_of("LinkedIn returned status ");
        append(&mut v, crate::text::decimal_of(status as u64).as_slice());
        return Err(FetchError::HttpError(string_of(v.as_slice())));
    }
    Ok(())
}

/// A profile page body is an auth wall when it is under 5000 bytes or
/// mentions `"authwall"`.
pub open spec fn is_auth_wall(body: Seq<char>) -> bool {
    utf8_len(body) < 5000 || contains(body, "\"authwall\""@)
}

/// The error for a profile page body that is an auth wall, if it is one.
pub fn profile_body_check(body: &str) -> (r: Result<(), FetchError>)
    ensures
        !is_auth_wall(body@) <==> r is Ok,
        is_auth_wall(body@) ==> (r matches Err(FetchError::HttpError(m)) && m@
            == "LinkedIn returned auth wall. Re-export cookies from browser."@),
{
    let c = chars_of(body);
    if utf8_len_lt(c.as_slice(), 5000) || contains_str(c.as_slice(), "\"authwall\"") {
        return Err(
            FetchError::HttpError(
                string_of(chars_of("LinkedIn returned auth wall. Re-export cookies from browser.").as_slice()),
            ),
        );
    }
    Ok(())
}

/// The error message a profile page answer with status `status` gives, if any.
pub open spec fn profile_status_error(status: u16) -> Option<Seq<char>> {
    if status == 200 {
        None
    } else if status == 301 || status == 302 {
        Some("LinkedIn session expired (302 redirect). Re-export cookies from browser."@)
    } else if status == 999 {
        Some("LinkedIn blocked request (999). Account may need warming up."@)
    } else {
        Some("LinkedIn returned status "@ + crate::text::decimal(status as nat))
    }
}

/// The profile a profile page answer gives: the status is checked first, then
/// the body is read (an error reading it is passed on), then an auth wall is
/// refused, and last the page of the user `username` is read.
pub fn profile_from_answer(status: u16, body: Result<String, FetchError>, username: &str) -> (r: Result<
    LinkedInProfile,
    FetchError,
>)
    ensures
        status != 200 ==> (r matches Err(FetchError::HttpError(m)) && Some(m@) == profile_status_error(status)),
        status == 200 ==> match body {
            Err(e) => r == Err::<LinkedInProfile, FetchError>(e),
            Ok(b) => if is_auth_wall(b@) {
                r matches Err(FetchError::HttpError(m)) && m@
                    == "LinkedIn returned auth wall. Re-export cookies from browser."@
            } else {
                r matches Ok(p) && p.name@ == page_profile(code_texts(b@), first_title_text(b@), username@).name
                    && opt_view(p.headline) == page_profile(code_texts(b@), first_title_text(b@), username@).headline
                    && opt_view(p.about) == page_profile(code_texts(b@), first_title_text(b@), username@).about
                    && views(p.experience@) == page_profile(
                    code_texts(b@),
                    first_title_text(b@),
                    username@,
                ).experience && views(p.education@) == page_profile(
                    code_texts(b@),
                    first_title_text(b@),
                    username@,
                ).education && p.recent_posts@.len() == 0
            },
        },
{
    match profile_status_check(status) {
        Err(e) => return Err(e),
        Ok(()) => {},
    }
    let body = match body {
        Err(e) => return Err(e),
        Ok(b) => b,
    };
    match profile_body_check(body.as_str()) {
        Err(e) => return Err(e),
        Ok(()) => {},
    }
    Ok(parse_html_profile(body.as_str(), username))
}

} // verus!
