//! Site crawling: what is kept of each page, and the crawl's decisions.
use vstd::prelude::*;
use crate::fetch::{FetchError, FetchResult};
use crate::fetch::sitemap::{
    anchor_hrefs, base_host, extract_links, feed_scan, is_sitemap_index, is_allowed, listed, loc_scan, on_site,
    parse_feed_xml, parse_robots_txt, parse_sitemap_xml, robots_scan, same_site_links, xml_events, RobotsInfo,
};
use crate::social::opt_view;
use crate::text::{
    append_str, chars_of, contains, contains_str, lines, lines_of, starts_with, starts_with_str,
    string_of, trim, trim_end_char, trim_end_char_of, trim_of, views, vviews,
};
use crate::weburl::{parse_url, parse_url_or_error, parsed_url, parts_view, url_parse_outcome, UrlParts};

verus! {

/// The pages a crawl fetched, and how it found them.
#[derive(Debug, Clone)]
pub struct CrawlResult {
    pub domain: String,
    pub pages: Vec<PageResult>,
    pub discovery_method: String,
}

/// One fetched page of a crawl.
#[derive(Debug, Clone)]
pub struct PageResult {
    pub url: String,
    pub title: Option<String>,
    pub content: String,
    pub status_code: u16,
}

/// The title of a markdown document: the text of its first `# ` heading (after
/// trimming the line), trimmed.
pub open spec fn markdown_title(ls: Seq<Seq<char>>) -> Option<Seq<char>>
    decreases ls.len(),
{
    if ls.len() == 0 {
        None
    } else if starts_with(trim(ls[0]), "# "@) {
        Some(trim(trim(ls[0]).skip(2)))
    } else {
        markdown_title(ls.drop_first())
    }
}

/// The title of a markdown document, if it has a `# ` heading.
pub fn extract_title_from_markdown(md: &str) -> (t: Option<String>)
    ensures
        opt_view(t) == markdown_title(lines(md@)),
{
    let c = chars_of(md);
    let ls = lines_of(c.as_slice());
    let ghost all = lines(md@);
    let mut i: usize = 0;
    assert(all.skip(0) =~= all);
    while i < ls.len()
        invariant
            all == vviews(ls@),
            all == lines(md@),
            i <= ls@.len(),
            markdown_title(all) == markdown_title(all.skip(i as int)),
        decreases ls@.len() - i,
    {
        assert(all.skip(i as int)[0] == ls@[i as int]@);
        assert(all.skip(i as int).drop_first() =~= all.skip(i + 1));
        let l = trim_of(ls[i].as_slice());
        if starts_with_str(l, "# ") {
            proof {
                reveal_strlit("# ");
            }
            assert(l@.skip(2) =~= l@.subrange(2, l@.len() as int));
            assert(all.skip(i as int).len() > 0);
            assert(markdown_title(all.skip(i as int)) == Some(trim(l@.skip(2))));
            return Some(string_of(trim_of(&l[2..l.len()])));
        }
        i = i + 1;
    }
    None
}

/// A crawl page from a fetched page, titled by its first heading.
pub fn page_from(result: FetchResult) -> (p: PageResult)
    ensures
        p.url == result.url,
        p.content == result.content,
        p.status_code == result.status_code,
        opt_view(p.title) == markdown_title(lines(result.content@)),
{
    let title = extract_title_from_markdown(result.content.as_str());
    PageResult { url: result.url, title, content: result.content, status_code: result.status_code }
}

/// The view of a crawled page: its URL, title, content and status.
pub open spec fn page_view(p: PageResult) -> (Seq<char>, Option<Seq<char>>, Seq<char>, u16) {
    (p.url@, opt_view(p.title), p.content@, p.status_code)
}

/// The page a successful fetch of `url` gives.
pub open spec fn fetched_page(url: Seq<char>, r: FetchResult) -> (Seq<char>, Option<Seq<char>>, Seq<char>, u16) {
    (url, markdown_title(lines(r.content@)), r.content@, r.status_code)
}

/// The pages of a crawl's fetches of `urls`, in order: one for each URL whose
/// fetch (`fetched`, in the same order) succeeded.
pub open spec fn kept_pages(urls: Seq<Seq<char>>, fetched: Seq<Option<FetchResult>>) -> Seq<
    (Seq<char>, Option<Seq<char>>, Seq<char>, u16),
>
    decreases urls.len(),
{
    if urls.len() == 0 || fetched.len() == 0 {
        Seq::empty()
    } else {
        let rest = kept_pages(urls.drop_last(), fetched.drop_last());
        match fetched.last() {
            Some(r) => rest.push(fetched_page(urls.last(), r)),
            None => rest,
        }
    }
}

/// The crawl result of `domain` found by `method`: the pages fetched from
/// `urls` (`fetched` holds each fetch's result in the same order, `None` for a
/// failed fetch), in order, those that failed left out; each page keeps the URL
/// it was fetched from.
pub fn crawl_pages(domain: &str, urls: &Vec<String>, fetched: Vec<Option<FetchResult>>, method: &str) -> (c:
    CrawlResult)
    requires
        fetched@.len() == urls@.len(),
    ensures
        c.domain@ == domain@,
        c.discovery_method@ == method@,
        c.pages@.map_values(|p: PageResult| page_view(p)) == kept_pages(views(urls@), fetched@),
{
    let ghost all = fetched@;
    let ghost us = views(urls@);
    let mut rest = fetched;
    let mut pages: Vec<PageResult> = Vec::new();
    let mut i: usize = 0;
    while i < urls.len()
        invariant
            all.len() == urls@.len(),
            us == views(urls@),
            i <= urls@.len(),
            rest@ == all.skip(i as int),
            pages@.map_values(|p: PageResult| page_view(p)) == kept_pages(us.take(i as int), all.take(i as int)),
        decreases urls@.len() - i,
    {
        let ghost before = pages@.map_values(|p: PageResult| page_view(p));
        assert(us.take(i + 1).drop_last() =~= us.take(i as int));
        assert(all.take(i + 1).drop_last() =~= all.take(i as int));
        assert(us.take(i + 1).last() == urls@[i as int]@);
        assert(all.take(i + 1).last() == all[i as int]);
        assert(rest@[0] == all[i as int]);
        let r = rest.remove(0);
        assert(rest@ =~= all.skip(i + 1));
        match r {
            Some(f) => {
                let url = string_of(chars_of(urls[i].as_str()).as_slice());
                let page = page_from(f);
                let page = PageResult { url, title: page.title, content: page.content, status_code: page.status_code };
                pages.push(page);
                assert(pages@.map_values(|p: PageResult| page_view(p)) =~= before.push(
                    fetched_page(urls@[i as int]@, f),
                ));
            },
            None => {},
        }
        i = i + 1;
    }
    assert(us.take(urls@.len() as int) =~= us);
    assert(all.take(urls@.len() as int) =~= all);
    CrawlResult {
        domain: string_of(chars_of(domain).as_slice()),
        pages,
        discovery_method: string_of(chars_of(method).as_slice()),
    }
}

/// There are no more kept pages than URLs, and when every URL is allowed, so
/// is every kept page's URL.
proof fn lemma_kept_pages_allowed(
    urls: Seq<Seq<char>>,
    fetched: Seq<Option<FetchResult>>,
    disallowed: Seq<Seq<char>>,
)
    ensures
        kept_pages(urls, fetched).len() <= urls.len(),
        (forall|k: int| 0 <= k < urls.len() ==> url_allowed(#[trigger] urls[k], disallowed)) ==> forall|k: int|
            0 <= k < kept_pages(urls, fetched).len() ==> url_allowed(
                (#[trigger] kept_pages(urls, fetched)[k]).0,
                disallowed,
            ),
    decreases urls.len(),
{
    if urls.len() > 0 && fetched.len() > 0 {
        lemma_kept_pages_allowed(urls.drop_last(), fetched.drop_last(), disallowed);
        let rest = kept_pages(urls.drop_last(), fetched.drop_last());
        let kept = kept_pages(urls, fetched);
        if forall|k: int| 0 <= k < urls.len() ==> url_allowed(#[trigger] urls[k], disallowed) {
            assert forall|k: int| 0 <= k < urls.drop_last().len() implies url_allowed(
                #[trigger] urls.drop_last()[k],
                disallowed,
            ) by {
                assert(urls.drop_last()[k] == urls[k]);
            }
            assert forall|k: int| 0 <= k < kept.len() implies url_allowed((#[trigger] kept[k]).0, disallowed) by {
                if k < rest.len() {
                    assert(kept[k] == rest[k]);
                } else {
                    assert(kept[k].0 == urls[urls.len() - 1]);
                }
            }
        }
    }
}

/// Every URL `allowed_only` keeps is allowed.
proof fn lemma_allowed_only(urls: Seq<Seq<char>>, disallowed: Seq<Seq<char>>)
    ensures
        allowed_only(urls, disallowed).len() <= urls.len(),
        forall|k: int|
            0 <= k < allowed_only(urls, disallowed).len() ==> url_allowed(
                #[trigger] allowed_only(urls, disallowed)[k],
                disallowed,
            ),
    decreases urls.len(),
{
    if urls.len() > 0 {
        lemma_allowed_only(urls.drop_last(), disallowed);
        let rest = allowed_only(urls.drop_last(), disallowed);
        assert forall|k: int| 0 <= k < allowed_only(urls, disallowed).len() implies url_allowed(
            #[trigger] allowed_only(urls, disallowed)[k],
            disallowed,
        ) by {
            if k < rest.len() {
                assert(allowed_only(urls, disallowed)[k] == rest[k]);
            }
        }
    }
}

/// A crawl's pages obey robots.txt and its page limit: when the URLs fetched are
/// those `allowed_urls` picks from the discovered ones, every page's URL is
/// allowed by the `disallowed` rules and there are at most `max_pages` pages,
/// whichever fetches fail.
pub proof fn law_crawl_pages_allowed(
    discovered: Seq<Seq<char>>,
    disallowed: Seq<Seq<char>>,
    max_pages: usize,
    fetched: Seq<Option<FetchResult>>,
)
    ensures
        kept_pages(first_n(allowed_only(discovered, disallowed), max_pages as int), fetched).len()
            <= max_pages,
        forall|k: int|
            0 <= k < kept_pages(first_n(allowed_only(discovered, disallowed), max_pages as int), fetched).len()
                ==> url_allowed(
                (#[trigger] kept_pages(
                    first_n(allowed_only(discovered, disallowed), max_pages as int),
                    fetched,
                )[k]).0,
                disallowed,
            ),
{
    let all = allowed_only(discovered, disallowed);
    let urls = first_n(all, max_pages as int);
    lemma_allowed_only(discovered, disallowed);
    assert forall|k: int| 0 <= k < urls.len() implies url_allowed(#[trigger] urls[k], disallowed) by {
        assert(urls[k] == all[k]);
    }
    lemma_kept_pages_allowed(urls, fetched, disallowed);
}

/// What a crawl fetches once discovery is over: nothing discovered means the
/// home page alone (`None`); else the discovered URLs robots.txt allows, at most
/// `max_pages` of them, in order.
pub fn crawl_targets(discovered: &Vec<String>, disallowed: &Vec<String>, max_pages: usize) -> (r: Option<
    Vec<String>,
>)
    ensures
        discovered@.len() == 0 <==> r is None,
        r matches Some(v) ==> views(v@) == first_n(
            allowed_only(views(discovered@), views(disallowed@)),
            max_pages as int,
        ),
{
    if discovered.len() == 0 {
        None
    } else {
        Some(allowed_urls(discovered, disallowed, max_pages))
    }
}

// ---------------------------------------------------------------------------
// Where a crawl starts
// ---------------------------------------------------------------------------
/// The URL a crawl of `domain` starts from: the domain as given when it has an
/// http(s) scheme, with `https://` in front otherwise.
pub open spec fn crawl_start_text(domain: Seq<char>) -> Seq<char> {
    if starts_with(domain, "http://"@) || starts_with(domain, "https://"@) {
        domain
    } else {
        "https://"@ + domain
    }
}

/// The parsed start URL of a crawl, or the URL error that ends it.
pub fn crawl_base(domain: &str) -> (r: Result<UrlParts, FetchError>)
    ensures
        match url_parse_outcome(crawl_start_text(domain@)) {
            Ok(p) => r matches Ok(q) && parts_view(q) == p,
            Err(m) => r matches Err(FetchError::UrlError(e)) && e@ == m,
        },
{
    let c = chars_of(domain);
    let start = if starts_with_str(c.as_slice(), "http://") || starts_with_str(c.as_slice(), "https://") {
        string_of(c.as_slice())
    } else {
        let mut v = chars_of("https://");
        crate::text::append(&mut v, c.as_slice());
        string_of(v.as_slice())
    };
    match parse_url_or_error(start.as_str()) {
        Ok(p) => Ok(p),
        Err(m) => Err(FetchError::UrlError(m)),
    }
}

/// A URL's text without trailing `/`, to which paths are appended.
pub fn base_text(base: &UrlParts) -> (s: String)
    ensures
        s@ == trim_end_char(base.text@, '/'),
{
    string_of(trim_end_char_of(chars_of(base.text.as_str()).as_slice(), '/'))
}

/// `base` followed by `path`.
pub fn url_with_path(base: &str, path: &str) -> (u: String)
    ensures
        u@ == base@ + path@,
{
    let mut v: Vec<char> = Vec::new();
    append_str(&mut v, base);
    append_str(&mut v, path);
    string_of(v.as_slice())
}

/// The rules a fetch of robots.txt gives: those of a page fetched with status
/// 200, none otherwise.
pub fn robots_from(fetched: &Result<FetchResult, FetchError>) -> (info: RobotsInfo)
    ensures
        match fetched {
            Ok(r) if r.status_code == 200 => views(info.sitemaps@) == robots_scan(
                lines(r.content@),
            ).sitemaps && views(info.disallowed@) == robots_scan(lines(r.content@)).disallowed
                && info.crawl_delay == robots_scan(lines(r.content@)).crawl_delay,
            _ => info.sitemaps@.len() == 0 && info.disallowed@.len() == 0 && info.crawl_delay
                is None,
        },
{
    match fetched {
        Ok(r) => {
            if r.status_code == 200 {
                return parse_robots_txt(r.content.as_str(), "*");
            }
        },
        Err(_) => {},
    }
    RobotsInfo { sitemaps: Vec::new(), disallowed: Vec::new(), crawl_delay: None }
}

// ---------------------------------------------------------------------------
// URL lists
// ---------------------------------------------------------------------------
/// The first `max` items of `s` (all of them when there are fewer).
pub open spec fn first_n(s: Seq<Seq<char>>, max: int) -> Seq<Seq<char>> {
    if s.len() <= max {
        s
    } else {
        s.take(max)
    }
}

/// Keeps the first `max` URLs.
pub fn take_urls(urls: &Vec<String>, max: usize) -> (r: Vec<String>)
    ensures
        views(r@) == first_n(views(urls@), max as int),
{
    let mut r: Vec<String> = Vec::new();
    let mut i: usize = 0;
    while i < urls.len() && i < max
        invariant
            i <= urls@.len(),
            i <= max,
            views(r@) == views(urls@).take(i as int),
        decreases urls@.len() - i,
    {
        let ghost prev = views(r@);
        let c = urls[i].clone();
        assert(c@ == views(urls@)[i as int]);
        r.push(c);
        assert(views(r@) =~= prev.push(c@));
        assert(views(urls@).take(i + 1) =~= views(urls@).take(i as int).push(views(urls@)[i as int]));
        i = i + 1;
    }
    assert(views(urls@).take(urls@.len() as int) =~= views(urls@));
    r
}

/// The first `max` URLs of a list, or `None` when it is empty.
pub fn some_urls(urls: &Vec<String>, max: usize) -> (r: Option<Vec<String>>)
    ensures
        urls@.len() == 0 ==> r is None,
        urls@.len() > 0 ==> (r matches Some(v) && views(v@) == first_n(views(urls@), max as int)),
{
    if urls.len() == 0 {
        None
    } else {
        Some(take_urls(urls, max))
    }
}

/// What a fetched sitemap holds.
pub enum SitemapFetch {
    /// Not fetched with status 200.
    Missing,
    /// A sitemap index, with the sitemaps it lists.
    Index(Vec<String>),
    /// A plain sitemap, with the pages it lists.
    Pages(Vec<String>),
}

/// Reads a fetched sitemap: nothing unless it was fetched with status 200, then
/// the `<loc>` URLs of the index or of the plain sitemap.
pub fn read_sitemap(fetched: &Result<FetchResult, FetchError>) -> (s: SitemapFetch)
    ensures
        match fetched {
            Ok(r) if r.status_code == 200 => if contains(r.content@, "<sitemapindex"@) || contains(
                r.content@,
                "<sitemapindex>"@,
            ) {
                s matches SitemapFetch::Index(v) && views(v@) == loc_scan(xml_events(r.content@)).urls
            } else {
                s matches SitemapFetch::Pages(v) && views(v@) == loc_scan(xml_events(r.content@)).urls
            },
            _ => s is Missing,
        },
        s matches SitemapFetch::Index(v) ==> forall|k: int|
            0 <= k < v@.len() ==> trim(#[trigger] v@[k]@) == v@[k]@,
        s matches SitemapFetch::Pages(v) ==> forall|k: int|
            0 <= k < v@.len() ==> trim(#[trigger] v@[k]@) == v@[k]@,
{
    match fetched {
        Ok(r) => {
            if r.status_code != 200 {
                return SitemapFetch::Missing;
            }
            if is_sitemap_index(r.content.as_str()) {
                SitemapFetch::Index(parse_sitemap_xml(r.content.as_str()))
            } else {
                SitemapFetch::Pages(parse_sitemap_xml(r.content.as_str()))
            }
        },
        Err(_) => SitemapFetch::Missing,
    }
}

/// The URLs a child sitemap of an index adds: its `<loc>` values when it was
/// fetched with status 200, none otherwise.
pub fn child_sitemap_urls(fetched: &Result<FetchResult, FetchError>) -> (urls: Vec<String>)
    ensures
        match fetched {
            Ok(r) => if r.status_code == 200 {
                views(urls@) == loc_scan(xml_events(r.content@)).urls
            } else {
                urls@.len() == 0
            },
            Err(_) => urls@.len() == 0,
        },
        forall|k: int|
            0 <= k < urls@.len() ==> trim(#[trigger] urls@[k]@) == urls@[k]@ && urls@[k]@.len()
                > 0,
{
    match fetched {
        Ok(r) => {
            if r.status_code == 200 {
                parse_sitemap_xml(r.content.as_str())
            } else {
                Vec::new()
            }
        },
        Err(_) => Vec::new(),
    }
}

/// The feed's item URLs from a fetched RSS or Atom document: when it was fetched
/// with status 200 (and, if `needs_items`, mentions `<item` or `<entry`), the
/// pages its items link to, the first `max` of them, if there are any.
pub fn feed_urls(fetched: &Result<FetchResult, FetchError>, needs_items: bool, max: usize) -> (r:
    Option<Vec<String>>)
    ensures
        match fetched {
            Ok(f) => if f.status_code != 200 || (needs_items && !contains(f.content@, "<item"@)
                && !contains(f.content@, "<entry"@)) {
                r is None
            } else if feed_scan(xml_events(f.content@)).urls.len() == 0 {
                r is None
            } else {
                r matches Some(v) && views(v@) == first_n(feed_scan(xml_events(f.content@)).urls, max as int)
            },
            Err(_) => r is None,
        },
        r matches Some(v) ==> v@.len() <= max,
{
    match fetched {
        Ok(f) => {
            if f.status_code != 200 {
                return None;
            }
            if needs_items {
                let c = chars_of(f.content.as_str());
                if !contains_str(c.as_slice(), "<item") && !contains_str(c.as_slice(), "<entry") {
                    return None;
                }
            }
            let urls = parse_feed_xml(f.content.as_str());
            let r = some_urls(&urls, max);
            proof {
                if let Some(v) = &r {
                    assert(views(v@).len() == v@.len());
                }
            }
            r
        },
        Err(_) => None,
    }
}

/// A URL may be crawled when it parses and its path is allowed by the rules.
pub open spec fn url_allowed(url: Seq<char>, disallowed: Seq<Seq<char>>) -> bool {
    match parsed_url(url) {
        Some(p) => forall|k: int| 0 <= k < disallowed.len() ==> !starts_with(p.3, #[trigger] disallowed[k]),
        None => false,
    }
}

/// The URLs that may be crawled, in order.
pub open spec fn allowed_only(urls: Seq<Seq<char>>, disallowed: Seq<Seq<char>>) -> Seq<Seq<char>>
    decreases urls.len(),
{
    if urls.len() == 0 {
        Seq::empty()
    } else if url_allowed(urls.last(), disallowed) {
        allowed_only(urls.drop_last(), disallowed).push(urls.last())
    } else {
        allowed_only(urls.drop_last(), disallowed)
    }
}

proof fn lemma_first_n_push(s: Seq<Seq<char>>, a: Seq<char>, max: int)
    requires
        0 <= max,
    ensures
        first_n(s.push(a), max) == if s.len() < max {
            first_n(s, max).push(a)
        } else {
            first_n(s, max)
        },
{
    if s.len() < max {
        assert(first_n(s.push(a), max) =~= s.push(a));
    } else {
        assert(first_n(s.push(a), max) =~= s.push(a).take(max));
        assert(s.push(a).take(max) =~= first_n(s, max));
    }
}

/// The URLs a crawl fetches: those robots.txt allows, at most `max_pages` of
/// them, in order.
pub fn allowed_urls(urls: &Vec<String>, disallowed: &Vec<String>, max_pages: usize) -> (r: Vec<
    String,
>)
    ensures
        views(r@) == first_n(allowed_only(views(urls@), views(disallowed@)), max_pages as int),
        r@.len() <= max_pages,
        forall|k: int| 0 <= k < r@.len() ==> url_allowed(#[trigger] r@[k]@, views(disallowed@)),
{
    let ghost all = views(urls@);
    let ghost rules = views(disallowed@);
    let mut r: Vec<String> = Vec::new();
    let mut i: usize = 0;
    assert(all.take(0) =~= Seq::<Seq<char>>::empty());
    while i < urls.len()
        invariant
            all == views(urls@),
            rules == views(disallowed@),
            i <= urls@.len(),
            views(r@) == first_n(allowed_only(all.take(i as int), rules), max_pages as int),
        decreases urls@.len() - i,
    {
        assert(all.take(i + 1).drop_last() =~= all.take(i as int));
        assert(all.take(i + 1).last() == urls@[i as int]@);
        let ghost before = allowed_only(all.take(i as int), rules);
        proof {
            lemma_first_n_push(before, urls@[i as int]@, max_pages as int);
        }
        let ok = match parse_url(urls[i].as_str()) {
            Some(p) => {
                assert(parsed_url(urls@[i as int]@) == Some(parts_view(p)));
                let ds = disallowed.as_slice();
                assert(ds@ == disallowed@);
                let a = is_allowed(p.path.as_str(), ds);
                assert(a == url_allowed(urls@[i as int]@, rules)) by {
                    let pv = parsed_url(urls@[i as int]@).unwrap();
                    assert(pv.3 == p.path@);
                    if a {
                        assert forall|k: int| 0 <= k < rules.len() implies !starts_with(
                            pv.3,
                            #[trigger] rules[k],
                        ) by {
                            assert(rules[k] == ds@[k]@);
                        }
                    } else {
                        let k = choose|k: int| 0 <= k < ds@.len() && starts_with(p.path@, #[trigger] ds@[k]@);
                        assert(rules[k] == ds@[k]@);
                    }
                }
                a
            },
            None => false,
        };
        if ok && r.len() < max_pages {
            let ghost prev = views(r@);
            r.push(urls[i].clone());
            assert(views(r@) =~= prev.push(urls@[i as int]@));
        }
        i = i + 1;
    }
    assert(all.take(urls@.len() as int) =~= all);
    proof {
        lemma_allowed_only_allowed(all, rules);
        let f = allowed_only(all, rules);
        assert forall|k: int| 0 <= k < r@.len() implies url_allowed(#[trigger] r@[k]@, rules) by {
            assert(views(r@)[k] == r@[k]@);
            if f.len() > max_pages {
                assert(views(r@) == f.take(max_pages as int));
                assert(f.take(max_pages as int)[k] == f[k]);
            }
        }
    }
    r
}

/// Every URL `allowed_only` keeps is allowed.
pub proof fn lemma_allowed_only_allowed(urls: Seq<Seq<char>>, rules: Seq<Seq<char>>)
    ensures
        forall|k: int|
            0 <= k < allowed_only(urls, rules).len() ==> url_allowed(
                #[trigger] allowed_only(urls, rules)[k],
                rules,
            ),
    decreases urls.len(),
{
    if urls.len() > 0 {
        lemma_allowed_only_allowed(urls.drop_last(), rules);
        let prev = allowed_only(urls.drop_last(), rules);
        if url_allowed(urls.last(), rules) {
            assert forall|k: int| 0 <= k < prev.len() + 1 implies url_allowed(
                #[trigger] prev.push(urls.last())[k],
                rules,
            ) by {
                if k < prev.len() {
                    assert(prev.push(urls.last())[k] == prev[k]);
                }
            }
        }
    }
}

/// The result of a crawl that found no page list: the home page alone.
pub fn homepage_only(domain: &str, homepage: FetchResult) -> (c: CrawlResult)
    ensures
        c.domain@ == domain@,
        c.discovery_method@ == "homepage_only"@,
        c.pages@.len() == 1,
        c.pages@[0].url == homepage.url,
        c.pages@[0].content == homepage.content,
        c.pages@[0].status_code == homepage.status_code,
        opt_view(c.pages@[0].title) == markdown_title(lines(homepage.content@)),
{
    let p = page_from(homepage);
    let mut pages: Vec<PageResult> = Vec::new();
    pages.push(p);
    CrawlResult { domain: string_of(chars_of(domain).as_slice()), pages, discovery_method: string_of(chars_of("homepage_only").as_slice()) }
}

// ---------------------------------------------------------------------------
// Link crawl
// ---------------------------------------------------------------------------
/// No item occurs twice.
pub open spec fn distinct(s: Seq<Seq<char>>) -> bool {
    forall|i: int, j: int| 0 <= i < j < s.len() ==> s[i] != s[j]
}

/// The URLs of queue entries.
pub open spec fn queue_urls(q: Seq<(Seq<char>, u32)>) -> Seq<Seq<char>> {
    q.map_values(|e: (Seq<char>, u32)| e.0)
}

/// The views of queue entries.
pub open spec fn queue_view(q: Seq<(String, u32)>) -> Seq<(Seq<char>, u32)> {
    q.map_values(|e: (String, u32)| (e.0@, e.1))
}

/// The largest number of pages a link crawl returns: `max_pages`, but always at
/// least the home page.
pub open spec fn page_bound(max_pages: usize) -> int {
    if max_pages >= 1 {
        max_pages as int
    } else {
        1
    }
}

/// Whether the queue may grow: always without a limit, else while the pages
/// and queued links together stay under it.
pub open spec fn has_room(limit: Option<int>, used: int) -> bool {
    match limit {
        None => true,
        Some(m) => used < m,
    }
}

/// How one discovered link changes the crawl's seen links and queue: an unseen
/// link is marked seen, and queued at `depth` when there is room for it beside
/// `base` pages.
pub open spec fn discover_step(
    seen: Seq<Seq<char>>,
    queue: Seq<(Seq<char>, u32)>,
    link: Seq<char>,
    depth: u32,
    limit: Option<int>,
    base: int,
) -> (Seq<Seq<char>>, Seq<(Seq<char>, u32)>) {
    if seen.contains(link) {
        (seen, queue)
    } else if has_room(limit, base + queue.len()) {
        (seen.push(link), queue.push((link, depth)))
    } else {
        (seen.push(link), queue)
    }
}

/// The seen links and queue after the links `links`, in order.
pub open spec fn discover_all(
    seen: Seq<Seq<char>>,
    queue: Seq<(Seq<char>, u32)>,
    links: Seq<Seq<char>>,
    depth: u32,
    limit: Option<int>,
    base: int,
) -> (Seq<Seq<char>>, Seq<(Seq<char>, u32)>)
    decreases links.len(),
{
    if links.len() == 0 {
        (seen, queue)
    } else {
        let prev = discover_all(seen, queue, links.drop_last(), depth, limit, base);
        discover_step(prev.0, prev.1, links.last(), depth, limit, base)
    }
}

/// The seen links, pages and queued links of a crawl agree: each list is free
/// of duplicates, no queued link is a page, and every page and queued link has
/// been seen.
pub open spec fn crawl_consistent(
    seen: Seq<Seq<char>>,
    pages: Seq<Seq<char>>,
    queued: Seq<Seq<char>>,
) -> bool {
    &&& distinct(seen)
    &&& distinct(pages)
    &&& distinct(queued)
    &&& forall|k: int|
        0 <= k < pages.len() ==> !queued.contains(#[trigger] pages[k]) && seen.contains(pages[k])
    &&& forall|k: int| 0 <= k < queued.len() ==> seen.contains(#[trigger] queued[k])
}

/// Seeing a fresh link, and queuing it or not, keeps a crawl consistent.
proof fn lemma_fresh_link(
    seen: Seq<Seq<char>>,
    pages: Seq<Seq<char>>,
    queued: Seq<Seq<char>>,
    link: Seq<char>,
)
    requires
        crawl_consistent(seen, pages, queued),
        !seen.contains(link),
    ensures
        crawl_consistent(seen.push(link), pages, queued),
        crawl_consistent(seen.push(link), pages, queued.push(link)),
{
    let s2 = seen.push(link);
    let q2 = queued.push(link);
    assert forall|k: int| 0 <= k < pages.len() implies s2.contains(#[trigger] pages[k]) by {
        let j = choose|j: int| 0 <= j < seen.len() && seen[j] == pages[k];
        assert(s2[j] == pages[k]);
    }
    assert forall|k: int| 0 <= k < queued.len() implies s2.contains(#[trigger] queued[k]) by {
        let j = choose|j: int| 0 <= j < seen.len() && seen[j] == queued[k];
        assert(s2[j] == queued[k]);
    }
    assert forall|k: int| 0 <= k < q2.len() implies s2.contains(#[trigger] q2[k]) by {
        if k < queued.len() {
            assert(q2[k] == queued[k]);
            let j = choose|j: int| 0 <= j < seen.len() && seen[j] == queued[k];
            assert(s2[j] == q2[k]);
        } else {
            assert(s2[seen.len() as int] == link);
        }
    }
    assert forall|k: int| 0 <= k < pages.len() implies !q2.contains(#[trigger] pages[k]) by {
        if q2.contains(pages[k]) {
            let j = choose|j: int| 0 <= j < q2.len() && q2[j] == pages[k];
            if j < queued.len() {
                assert(queued[j] == pages[k]);
            }
        }
    }
    assert forall|i: int, j: int| 0 <= i < j < s2.len() implies s2[i] != s2[j] by {
        if j == seen.len() {
            assert(s2[i] == seen[i]);
        }
    }
    assert forall|i: int, j: int| 0 <= i < j < q2.len() implies q2[i] != q2[j] by {
        if j == queued.len() {
            assert(q2[i] == queued[i]);
            assert(seen.contains(queued[i]));
        }
    }
}

/// Visiting the oldest queued link keeps a crawl consistent.
proof fn lemma_visit_first(seen: Seq<Seq<char>>, pages: Seq<Seq<char>>, queued: Seq<Seq<char>>)
    requires
        crawl_consistent(seen, pages, queued),
        queued.len() > 0,
    ensures
        crawl_consistent(seen, pages.push(queued[0]), queued.drop_first()),
{
    let x = queued[0];
    let p2 = pages.push(x);
    let q2 = queued.drop_first();
    assert forall|k: int| 0 <= k < p2.len() implies !q2.contains(#[trigger] p2[k]) && seen.contains(
        p2[k],
    ) by {
        if q2.contains(p2[k]) {
            let j = choose|j: int| 0 <= j < q2.len() && q2[j] == p2[k];
            assert(queued[j + 1] == q2[j]);
            if k < pages.len() {
                assert(p2[k] == pages[k]);
            }
        }
        if k == pages.len() {
            assert(p2[k] == queued[0]);
        } else {
            assert(p2[k] == pages[k]);
        }
    }
    assert forall|k: int| 0 <= k < q2.len() implies seen.contains(#[trigger] q2[k]) by {
        assert(q2[k] == queued[k + 1]);
    }
    assert forall|i: int, j: int| 0 <= i < j < p2.len() implies p2[i] != p2[j] by {
        if j == pages.len() {
            assert(p2[i] == pages[i]);
            assert(queued[0] == x);
        }
    }
    assert forall|i: int, j: int| 0 <= i < j < q2.len() implies q2[i] != q2[j] by {
        assert(q2[i] == queued[i + 1] && q2[j] == queued[j + 1]);
    }
}

/// What the crawl does next.
pub enum BfsStep {
    /// Add `url`, found `depth` links away from the home page, to the pages;
    /// fetch it for more links when `fetch` is set.
    Visit { url: String, depth: u32, fetch: bool },
    /// The crawl is over.
    Done,
}

/// The deepest link distance a crawl keeps: the depth limit, but at least the
/// home page's own links.
pub open spec fn depth_cap(max_depth: u32) -> int {
    if max_depth >= 1 {
        max_depth as int
    } else {
        1
    }
}

/// Link distances in visiting order: the home page at distance 0 first, and
/// never decreasing.
pub open spec fn depths_ordered(d: Seq<u32>) -> bool {
    &&& d.len() > 0
    &&& d[0] == 0
    &&& forall|i: int, j: int| 0 <= i < j < d.len() ==> d[i] <= d[j]
}

/// A first-in first-out queue in breadth-first order: distances never
/// decrease along it, and each is the distance `last` of the page visited
/// last or one more.
pub open spec fn queue_ordered(q: Seq<(Seq<char>, u32)>, last: u32) -> bool {
    &&& forall|i: int, j: int| 0 <= i < j < q.len() ==> q[i].1 <= q[j].1
    &&& forall|k: int| 0 <= k < q.len() ==> last <= #[trigger] q[k].1 <= last + 1
}

/// Every page and queued link is within the depth cap.
pub open spec fn within_depth(d: Seq<u32>, q: Seq<(Seq<char>, u32)>, cap: int) -> bool {
    &&& forall|k: int| 0 <= k < d.len() ==> #[trigger] d[k] <= cap
    &&& forall|k: int| 0 <= k < q.len() ==> (#[trigger] q[k]).1 <= cap
}

/// With a known host, every page after the home page and every queued link is
/// an http(s) URL on that host.
pub open spec fn all_on_site(pages: Seq<Seq<char>>, q: Seq<(Seq<char>, u32)>, host: Option<Seq<char>>) -> bool {
    host is Some ==> {
        &&& forall|k: int| 1 <= k < pages.len() ==> on_site(#[trigger] pages[k], host)
        &&& forall|k: int| 0 <= k < q.len() ==> on_site((#[trigger] q[k]).0, host)
    }
}

/// A breadth-first same-site link crawl from a home page: a queue of links to
/// visit, oldest first, the links already seen, and the pages collected so far
/// with their link distances from the home page.
pub struct BfsCrawl {
    seen: Vec<String>,
    queue: Vec<(String, u32)>,
    pages: Vec<String>,
    depths: Vec<u32>,
    max_pages: usize,
    max_depth: u32,
    home: Ghost<Seq<char>>,
    host: Ghost<Option<Seq<char>>>,
}

impl BfsCrawl {
    /// The links seen so far.
    pub closed spec fn seen_v(&self) -> Seq<Seq<char>> {
        views(self.seen@)
    }

    /// The links waiting to be visited with their distances, the next one first.
    pub closed spec fn queue_v(&self) -> Seq<(Seq<char>, u32)> {
        queue_view(self.queue@)
    }

    /// The pages collected so far, the home page first.
    pub closed spec fn pages_v(&self) -> Seq<Seq<char>> {
        views(self.pages@)
    }

    /// The link distance of each page from the home page.
    pub closed spec fn depths_v(&self) -> Seq<u32> {
        self.depths@
    }

    /// The distance of the page visited last.
    pub open spec fn last_depth(&self) -> u32 {
        self.depths_v().last()
    }

    /// The page limit.
    pub closed spec fn max_pages_v(&self) -> usize {
        self.max_pages
    }

    /// The depth limit.
    pub closed spec fn max_depth_v(&self) -> u32 {
        self.max_depth
    }

    /// The home page's host.
    pub closed spec fn host_v(&self) -> Option<Seq<char>> {
        self.host@
    }

    /// The home page the crawl started at.
    pub closed spec fn home_v(&self) -> Seq<char> {
        self.home@
    }

    /// The crawl is consistent, breadth-first, within its limits and on its site.
    pub closed spec fn wf(&self) -> bool {
        &&& crawl_consistent(self.seen_v(), self.pages_v(), queue_urls(self.queue_v()))
        &&& 1 <= self.pages@.len() <= page_bound(self.max_pages)
        &&& self.depths@.len() == self.pages@.len()
        &&& depths_ordered(self.depths@)
        &&& queue_ordered(self.queue_v(), self.depths@.last())
        &&& within_depth(self.depths@, self.queue_v(), depth_cap(self.max_depth))
        &&& all_on_site(self.pages_v(), self.queue_v(), self.host@)
        &&& self.pages_v()[0] == self.home@
    }

    /// Starts a crawl at the home page with URL `base_url` and HTML
    /// `homepage_html`: the home page (without trailing `/`) is the first page,
    /// and each of its same-site links not seen before is queued one link away.
    pub fn start(base_url: &str, homepage_html: &str, max_pages: usize, max_depth: u32) -> (b: Self)
        ensures
            b.wf(),
            b.pages_v() == seq![trim_end_char(base_url@, '/')],
            b.depths_v() == seq![0u32],
            b.max_pages_v() == max_pages,
            b.max_depth_v() == max_depth,
            b.host_v() == base_host(base_url@),
            b.home_v() == trim_end_char(base_url@, '/'),
            b.seen_v() == discover_all(
                seq![trim_end_char(base_url@, '/')],
                Seq::empty(),
                same_site_links(base_url@, anchor_hrefs(homepage_html@)),
                1,
                None,
                1,
            ).0,
            b.queue_v() == discover_all(
                seq![trim_end_char(base_url@, '/')],
                Seq::empty(),
                same_site_links(base_url@, anchor_hrefs(homepage_html@)),
                1,
                None,
                1,
            ).1,
    {
        let home = string_of(trim_end_char_of(chars_of(base_url).as_slice(), '/'));
        let links = extract_links(homepage_html, base_url);
        let mut seen: Vec<String> = Vec::new();
        seen.push(home.clone());
        let queue: Vec<(String, u32)> = Vec::new();
        let mut pages: Vec<String> = Vec::new();
        pages.push(home);
        let mut depths: Vec<u32> = Vec::new();
        depths.push(0);
        let mut b = BfsCrawl {
            seen,
            queue,
            pages,
            depths,
            max_pages,
            max_depth,
            home: Ghost(trim_end_char(base_url@, '/')),
            host: Ghost(base_host(base_url@)),
        };
        assert(b.seen_v() =~= seq![b.pages@[0]@]);
        assert(b.pages_v() =~= seq![b.pages@[0]@]);
        assert(b.queue_v() =~= Seq::<(Seq<char>, u32)>::empty());
        assert(queue_urls(b.queue_v()) =~= Seq::<Seq<char>>::empty());
        assert(b.depths@ =~= seq![0u32]);
        b.discover(&links, None);
        b
    }

    /// Sees each link of `links` in turn, queuing the unseen ones one link
    /// further than the page visited last, while the limit leaves room.
    fn discover(&mut self, links: &Vec<String>, limit: Option<usize>)
        requires
            old(self).wf(),
            old(self).last_depth() + 1 <= depth_cap(old(self).max_depth_v()),
            old(self).host_v() is Some ==> forall|k: int|
                0 <= k < links@.len() ==> on_site(#[trigger] links@[k]@, old(self).host_v()),
        ensures
            final(self).wf(),
            final(self).pages_v() == old(self).pages_v(),
            final(self).depths_v() == old(self).depths_v(),
            final(self).max_pages_v() == old(self).max_pages_v(),
            final(self).max_depth_v() == old(self).max_depth_v(),
            final(self).host_v() == old(self).host_v(),
            final(self).home_v() == old(self).home_v(),
            final(self).seen_v() == discover_all(
                old(self).seen_v(),
                old(self).queue_v(),
                views(links@),
                (old(self).last_depth() + 1) as u32,
                match limit { Some(m) => Some(m as int), None => None },
                old(self).pages_v().len() as int,
            ).0,
            final(self).queue_v() == discover_all(
                old(self).seen_v(),
                old(self).queue_v(),
                views(links@),
                (old(self).last_depth() + 1) as u32,
                match limit { Some(m) => Some(m as int), None => None },
                old(self).pages_v().len() as int,
            ).1,
    {
        let ghost all = views(links@);
        let ghost lim: Option<int> = match limit { Some(m) => Some(m as int), None => None };
        let ghost base = old(self).pages_v().len() as int;
        let ghost seen0 = old(self).seen_v();
        let ghost queue0 = old(self).queue_v();
        let last = self.depths[self.depths.len() - 1];
        let depth = last + 1;
        assert(all.take(0) =~= Seq::<Seq<char>>::empty());
        let mut i: usize = 0;
        while i < links.len()
            invariant
                all == views(links@),
                lim == match limit { Some(m) => Some(m as int), None => None },
                i <= links@.len(),
                self.wf(),
                self.pages_v() == old(self).pages_v(),
                self.pages_v().len() == base,
                self.depths@ == old(self).depths_v(),
                last == self.depths@.last(),
                depth == last + 1,
                depth <= depth_cap(self.max_depth),
                self.max_pages == old(self).max_pages,
                self.max_depth == old(self).max_depth,
                self.host@ == old(self).host_v(),
                self.host@ is Some ==> forall|k: int|
                    0 <= k < links@.len() ==> on_site(#[trigger] links@[k]@, self.host@),
                self.seen_v() == discover_all(seen0, queue0, all.take(i as int), depth, lim, base).0,
                self.queue_v() == discover_all(seen0, queue0, all.take(i as int), depth, lim, base).1,
            decreases links@.len() - i,
        {
            assert(all.take(i + 1).drop_last() =~= all.take(i as int));
            assert(all.take(i + 1).last() == links@[i as int]@);
            let link = &links[i];
            let lc = chars_of(link.as_str());
            if !listed(&self.seen, lc.as_slice()) {
                let room = match limit {
                    None => true,
                    Some(m) => self.pages.len() < m && self.queue.len() < m - self.pages.len(),
                };
                let ghost s0 = self.seen_v();
                let ghost q0 = self.queue_v();
                proof {
                    lemma_fresh_link(s0, self.pages_v(), queue_urls(q0), link@);
                }
                self.seen.push(link.clone());
                assert(self.seen_v() =~= s0.push(link@));
                if room {
                    self.queue.push((link.clone(), depth));
                    assert(self.queue_v() =~= q0.push((link@, depth)));
                    assert(queue_urls(self.queue_v()) =~= queue_urls(q0).push(link@));
                    assert(self.queue_v()[q0.len() as int] == (link@, depth));
                    assert forall|k: int| 0 <= k < self.queue_v().len() implies (#[trigger] self.queue_v()[k]).1
                        <= depth_cap(self.max_depth) by {
                        if k < q0.len() {
                            assert(self.queue_v()[k] == q0[k]);
                        }
                    }
                    assert(queue_ordered(self.queue_v(), last)) by {
                        assert forall|a: int, b: int| 0 <= a < b < self.queue_v().len() implies self.queue_v()[a].1
                            <= self.queue_v()[b].1 by {
                            assert(self.queue_v()[a] == q0[a] || a == q0.len());
                            if b < q0.len() {
                                assert(self.queue_v()[a] == q0[a] && self.queue_v()[b] == q0[b]);
                            } else {
                                assert(self.queue_v()[a] == q0[a]);
                                assert(last <= q0[a].1 <= last + 1);
                            }
                        }
                        assert forall|k: int| 0 <= k < self.queue_v().len() implies last <= #[trigger] self.queue_v()[k].1
                            <= last + 1 by {
                            if k < q0.len() {
                                assert(self.queue_v()[k] == q0[k]);
                            }
                        }
                    }
                    assert(all_on_site(self.pages_v(), self.queue_v(), self.host@)) by {
                        if self.host@ is Some {
                            assert forall|k: int| 0 <= k < self.queue_v().len() implies on_site(
                                (#[trigger] self.queue_v()[k]).0,
                                self.host@,
                            ) by {
                                if k < q0.len() {
                                    assert(self.queue_v()[k] == q0[k]);
                                }
                            }
                        }
                    }
                }
            }
            i = i + 1;
        }
        assert(all.take(links@.len() as int) =~= all);
    }

    /// The crawl's next move: done when the pages are at the limit or no link
    /// is queued; else the oldest queued link becomes a page, to be fetched for
    /// more links while its distance is under the depth limit. Distances never
    /// decrease from one visit to the next.
    pub fn step(&mut self) -> (s: BfsStep)
        requires
            old(self).wf(),
        ensures
            final(self).wf(),
            final(self).seen_v() == old(self).seen_v(),
            final(self).max_pages_v() == old(self).max_pages_v(),
            final(self).max_depth_v() == old(self).max_depth_v(),
            final(self).host_v() == old(self).host_v(),
            final(self).home_v() == old(self).home_v(),
            if old(self).queue_v().len() == 0 || old(self).pages_v().len() >= old(self).max_pages_v() {
                &&& s is Done
                &&& final(self).pages_v() == old(self).pages_v()
                &&& final(self).depths_v() == old(self).depths_v()
                &&& final(self).queue_v() == old(self).queue_v()
            } else {
                &&& s matches BfsStep::Visit { url, depth, fetch } && url@ == old(self).queue_v()[0].0
                    && depth == old(self).queue_v()[0].1 && fetch == (depth < old(self).max_depth_v())
                    && depth >= old(self).last_depth()
                &&& final(self).pages_v() == old(self).pages_v().push(old(self).queue_v()[0].0)
                &&& final(self).depths_v() == old(self).depths_v().push(old(self).queue_v()[0].1)
                &&& final(self).queue_v() == old(self).queue_v().drop_first()
            },
    {
        if self.pages.len() >= self.max_pages || self.queue.len() == 0 {
            return BfsStep::Done;
        }
        let ghost q0 = self.queue_v();
        let ghost p0 = self.pages_v();
        let ghost d0 = self.depths@;
        let ghost last0 = self.depths@.last();
        proof {
            lemma_visit_first(self.seen_v(), p0, queue_urls(q0));
            assert(queue_urls(q0)[0] == q0[0].0);
            assert(queue_urls(q0).drop_first() =~= queue_urls(q0.drop_first()));
        }
        let (url, depth) = self.queue.remove(0);
        assert(self.queue_v() =~= q0.drop_first());
        assert(q0[0] == (url@, depth));
        self.pages.push(url.clone());
        self.depths.push(depth);
        assert(self.pages_v() =~= p0.push(url@));
        proof {
            let q1 = self.queue_v();
            let d1 = self.depths@;
            assert(d1 =~= d0.push(depth));
            assert(last0 <= depth <= last0 + 1);
            assert forall|i: int, j: int| 0 <= i < j < d1.len() implies d1[i] <= d1[j] by {
                if j == d0.len() {
                    assert(d1[i] == d0[i]);
                    assert(d0[i] <= d0[d0.len() - 1]);
                }
            }
            assert forall|k: int| 0 <= k < q1.len() implies depth <= #[trigger] q1[k].1 <= depth + 1 by {
                assert(q1[k] == q0[k + 1]);
                assert(q0[0].1 <= q0[k + 1].1);
            }
            assert forall|a: int, b: int| 0 <= a < b < q1.len() implies q1[a].1 <= q1[b].1 by {
                assert(q1[a] == q0[a + 1] && q1[b] == q0[b + 1]);
            }
            assert forall|k: int| 0 <= k < d1.len() implies #[trigger] d1[k] <= depth_cap(self.max_depth) by {
                if k == d0.len() {
                    assert(q0[0].1 <= depth_cap(self.max_depth));
                } else {
                    assert(d1[k] == d0[k]);
                }
            }
            assert forall|k: int| 0 <= k < q1.len() implies (#[trigger] q1[k]).1 <= depth_cap(self.max_depth) by {
                assert(q1[k] == q0[k + 1]);
            }
            if self.host@ is Some {
                let pv = self.pages_v();
                assert forall|k: int| 1 <= k < pv.len() implies on_site(#[trigger] pv[k], self.host@) by {
                    if k < p0.len() {
                        assert(pv[k] == p0[k]);
                    } else {
                        assert(pv[k] == q0[0].0);
                    }
                }
                assert forall|k: int| 0 <= k < q1.len() implies on_site((#[trigger] q1[k]).0, self.host@) by {
                    assert(q1[k] == q0[k + 1]);
                }
            }
        }
        BfsStep::Visit { url, depth, fetch: depth < self.max_depth }
    }

    /// Sees the same-site links of the HTML `html` of the page visited last,
    /// queuing the unseen ones one link further while the pages and queued links
    /// together stay under the page limit. Nothing changes before a page has
    /// been visited, or when the page visited last is at the depth limit.
    pub fn add_links(&mut self, html: &str)
        requires
            old(self).wf(),
        ensures
            final(self).wf(),
            final(self).pages_v() == old(self).pages_v(),
            final(self).depths_v() == old(self).depths_v(),
            final(self).max_pages_v() == old(self).max_pages_v(),
            final(self).max_depth_v() == old(self).max_depth_v(),
            final(self).host_v() == old(self).host_v(),
            final(self).home_v() == old(self).home_v(),
            if old(self).pages_v().len() >= 2 && old(self).last_depth() < old(self).max_depth_v() {
                &&& final(self).seen_v() == discover_all(
                    old(self).seen_v(),
                    old(self).queue_v(),
                    same_site_links(old(self).pages_v().last(), anchor_hrefs(html@)),
                    (old(self).last_depth() + 1) as u32,
                    Some(old(self).max_pages_v() as int),
                    old(self).pages_v().len() as int,
                ).0
                &&& final(self).queue_v() == discover_all(
                    old(self).seen_v(),
                    old(self).queue_v(),
                    same_site_links(old(self).pages_v().last(), anchor_hrefs(html@)),
                    (old(self).last_depth() + 1) as u32,
                    Some(old(self).max_pages_v() as int),
                    old(self).pages_v().len() as int,
                ).1
            } else {
                &&& final(self).seen_v() == old(self).seen_v()
                &&& final(self).queue_v() == old(self).queue_v()
            },
    {
        let n = self.pages.len();
        let last = self.depths[self.depths.len() - 1];
        if n < 2 || last >= self.max_depth {
            return;
        }
        let page = self.pages[n - 1].clone();
        assert(page@ == self.pages_v().last());
        let links = extract_links(html, page.as_str());
        proof {
            if self.host@ is Some {
                let pv = self.pages_v();
                assert(on_site(pv[pv.len() - 1], self.host@));
                assert(base_host(page@) == self.host@);
            }
        }
        let m = self.max_pages;
        self.discover(&links, Some(m));
    }

    /// The pages of the crawl: the home page first, none twice, at most
    /// `max_pages` of them but at least the home page, and, when the home page
    /// has a host, every other page an http(s) URL on that host.
    pub fn finish(self) -> (r: Vec<String>)
        requires
            self.wf(),
        ensures
            views(r@) == self.pages_v(),
            r@.len() >= 1,
            r@[0]@ == self.home_v(),
            distinct(views(r@)),
            r@.len() <= page_bound(self.max_pages_v()),
            self.host_v() is Some ==> forall|k: int|
                1 <= k < r@.len() ==> on_site(#[trigger] r@[k]@, self.host_v()),
    {
        proof {
            assert forall|k: int| 1 <= k < self.pages@.len() implies on_site(
                #[trigger] self.pages@[k]@,
                self.host@,
            ) || self.host@ is None by {
                assert(self.pages_v()[k] == self.pages@[k]@);
            }
        }
        self.pages
    }
}

/// A finished link crawl started at `base_url` (see `BfsCrawl::start`; every
/// step keeps the home page and host): its pages begin with the home page
/// without trailing `/`, hold no page twice, number at least one and at most
/// `max_pages` (the home page counts even when `max_pages` is 0), every page
/// after the first is an http(s) URL on the home page's host, and every page's
/// link distance from the home page is within the depth limit (at least 1).
pub proof fn law_finished_crawl(b: BfsCrawl, base_url: Seq<char>)
    requires
        b.wf(),
        b.home_v() == trim_end_char(base_url, '/'),
        b.host_v() == base_host(base_url),
    ensures
        b.pages_v()[0] == trim_end_char(base_url, '/'),
        distinct(b.pages_v()),
        1 <= b.pages_v().len() <= page_bound(b.max_pages_v()),
        base_host(base_url) is Some ==> forall|k: int|
            1 <= k < b.pages_v().len() ==> on_site(#[trigger] b.pages_v()[k], base_host(base_url)),
        b.depths_v().len() == b.pages_v().len(),
        forall|k: int| 0 <= k < b.depths_v().len() ==> #[trigger] b.depths_v()[k] <= depth_cap(b.max_depth_v()),
{
}

/// What every state of a crawl keeps: the home page first, no page twice, the
/// page count within its bound, pages visited in never-decreasing link distance
/// and within the depth cap, the queue oldest-first in distance order, and
/// every page but the home page on the home page's host.
pub proof fn law_crawl_state(b: BfsCrawl)
    requires
        b.wf(),
    ensures
        distinct(b.pages_v()),
        1 <= b.pages_v().len() <= page_bound(b.max_pages_v()),
        depths_ordered(b.depths_v()),
        b.depths_v().len() == b.pages_v().len(),
        queue_ordered(b.queue_v(), b.last_depth()),
        within_depth(b.depths_v(), b.queue_v(), depth_cap(b.max_depth_v())),
        all_on_site(b.pages_v(), b.queue_v(), b.host_v()),
{
}

} // verus!
