//! How a crawl finds a site's pages: the sitemaps robots.txt names, then the
//! standard sitemap locations (following the children of a sitemap index),
//! then the standard feed locations, then the feeds the home page links to,
//! and last a link crawl from the home page. Each step names the next request
//! and reads its answer.
use vstd::prelude::*;
use crate::fetch::crawler::{
    child_sitemap_urls, feed_urls, first_n, read_sitemap, some_urls, take_urls, url_with_path, SitemapFetch,
};
use crate::fetch::sitemap::{
    extract_rss_links, feed_link_hrefs, feed_links, feed_scan, is_sitemap_index, loc_scan, rss_path_list, rss_paths,
    sitemap_path_list, sitemap_paths, xml_events, RobotsInfo,
};
use crate::fetch::{FetchError, FetchResult};
use crate::text::{
    append, chars_of, contains, str_views, string_of, trim_end_char, trim_end_char_of, views,
};

verus! {

/// Where the discovery stands.
pub enum DiscoveryStage {
    /// Nothing asked yet.
    Start,
    /// Waiting for a sitemap: the `index`-th standard location when `standard`
    /// is set, else the `index`-th sitemap robots.txt names.
    Sitemap { standard: bool, index: usize },
    /// Reading the child sitemaps of the index found at that sitemap source:
    /// waiting for child `next`, with the page URLs collected so far.
    Children { standard: bool, index: usize, children: Vec<String>, next: usize, collected: Vec<String> },
    /// Waiting for the `index`-th standard feed location.
    Feed { index: usize },
    /// Waiting for the home page.
    Home,
    /// Waiting for feed `next` of those the home page links to.
    HomeFeed { feeds: Vec<String>, next: usize, html: String },
    /// Waiting for the link crawl from the home page.
    Crawl,
    /// The discovery is over.
    Finished,
}

/// What the caller learned from the last action.
pub enum DiscoveryEvent {
    /// The discovery begins.
    Begin,
    /// The answer to a fetch.
    Fetched(Result<FetchResult, FetchError>),
    /// The pages a link crawl returned.
    Crawled(Vec<String>),
}

/// What the caller does next.
pub enum DiscoveryAction {
    /// Fetch this URL directly and hand back the answer.
    Fetch(String),
    /// Run the link crawl from the home page with this HTML and hand back its pages.
    LinkCrawl(String),
    /// The discovery is over: these pages, found this way.
    Finish(Vec<String>, String),
}

/// The view of a stage.
pub enum StageView {
    Start,
    Sitemap(bool, int),
    Children(bool, int, Seq<Seq<char>>, int, Seq<Seq<char>>),
    Feed(int),
    Home,
    HomeFeed(Seq<Seq<char>>, int, Seq<char>),
    Crawl,
    Finished,
}

/// The view of an event: a fetch answer as its status and body, or nothing
/// for a failed fetch.
pub enum EventView {
    Begin,
    Fetched(Option<(u16, Seq<char>)>),
    Crawled(Seq<Seq<char>>),
}

/// The view of an action.
pub enum ActionView {
    Fetch(Seq<char>),
    LinkCrawl(Seq<char>),
    Finish(Seq<Seq<char>>, Seq<char>),
}

pub open spec fn stage_view(s: DiscoveryStage) -> StageView {
    match s {
        DiscoveryStage::Start => StageView::Start,
        DiscoveryStage::Sitemap { standard, index } => StageView::Sitemap(standard, index as int),
        DiscoveryStage::Children { standard, index, children, next, collected } => StageView::Children(
            standard,
            index as int,
            views(children@),
            next as int,
            views(collected@),
        ),
        DiscoveryStage::Feed { index } => StageView::Feed(index as int),
        DiscoveryStage::Home => StageView::Home,
        DiscoveryStage::HomeFeed { feeds, next, html } => StageView::HomeFeed(views(feeds@), next as int, html@),
        DiscoveryStage::Crawl => StageView::Crawl,
        DiscoveryStage::Finished => StageView::Finished,
    }
}

pub open spec fn event_view(e: DiscoveryEvent) -> EventView {
    match e {
        DiscoveryEvent::Begin => EventView::Begin,
        DiscoveryEvent::Fetched(r) => EventView::Fetched(
            match r {
                Ok(f) => Some((f.status_code, f.content@)),
                Err(_) => None,
            },
        ),
        DiscoveryEvent::Crawled(v) => EventView::Crawled(views(v@)),
    }
}

pub open spec fn action_view(a: DiscoveryAction) -> ActionView {
    match a {
        DiscoveryAction::Fetch(u) => ActionView::Fetch(u@),
        DiscoveryAction::LinkCrawl(h) => ActionView::LinkCrawl(h@),
        DiscoveryAction::Finish(v, m) => ActionView::Finish(views(v@), m@),
    }
}

/// The view of a step's result.
pub open spec fn step_view(r: (DiscoveryStage, DiscoveryAction)) -> (StageView, ActionView) {
    (stage_view(r.0), action_view(r.1))
}

/// The pages a sitemap body lists.
pub open spec fn listed_pages(body: Seq<char>) -> Seq<Seq<char>> {
    loc_scan(xml_events(body)).urls
}

/// The URL of a sitemap source.
pub open spec fn source_url(sitemaps: Seq<Seq<char>>, root: Seq<char>, standard: bool, i: int) -> Seq<char> {
    if standard {
        root + sitemap_path_list()[i]
    } else {
        sitemaps[i]
    }
}

/// How pages found at a sitemap source are labelled.
pub open spec fn source_label(standard: bool, i: int) -> Seq<char> {
    if standard && 0 <= i < sitemap_path_list().len() {
        "sitemap:"@ + sitemap_path_list()[i]
    } else if standard {
        "sitemap:"@
    } else {
        "robots_sitemap"@
    }
}

/// The end of the discovery with these pages, found this way.
pub open spec fn finish_with(urls: Seq<Seq<char>>, label: Seq<char>) -> (StageView, ActionView) {
    (StageView::Finished, ActionView::Finish(urls, label))
}

/// Asking for the home page.
pub open spec fn enter_home(root: Seq<char>) -> (StageView, ActionView) {
    (StageView::Home, ActionView::Fetch(root))
}

/// Asking for the `k`-th standard feed location, or the home page after them.
pub open spec fn enter_feed(root: Seq<char>, k: int) -> (StageView, ActionView) {
    if 0 <= k < rss_path_list().len() {
        (StageView::Feed(k), ActionView::Fetch(root + rss_path_list()[k]))
    } else {
        enter_home(root)
    }
}

/// Asking for a sitemap source: the robots.txt sitemaps in order, then the
/// standard locations, then the feed locations.
pub open spec fn enter_sitemap(sitemaps: Seq<Seq<char>>, root: Seq<char>, standard: bool, i: int) -> (
    StageView,
    ActionView,
) {
    if !standard && 0 <= i < sitemaps.len() {
        (StageView::Sitemap(false, i), ActionView::Fetch(sitemaps[i]))
    } else if !standard {
        (StageView::Sitemap(true, 0), ActionView::Fetch(root + sitemap_path_list()[0]))
    } else if 0 <= i < sitemap_path_list().len() {
        (StageView::Sitemap(true, i), ActionView::Fetch(root + sitemap_path_list()[i]))
    } else {
        enter_feed(root, 0)
    }
}

/// Reading the children of a sitemap index: the next child while fewer than
/// `max` pages are collected and children remain; then the collected pages (at
/// most `max`) when there are any, else the next sitemap source.
pub open spec fn enter_children(
    sitemaps: Seq<Seq<char>>,
    root: Seq<char>,
    standard: bool,
    i: int,
    children: Seq<Seq<char>>,
    j: int,
    collected: Seq<Seq<char>>,
    max: int,
) -> (StageView, ActionView) {
    if collected.len() >= max || j >= children.len() {
        if first_n(collected, max).len() > 0 {
            finish_with(first_n(collected, max), source_label(standard, i))
        } else {
            enter_sitemap(sitemaps, root, standard, i + 1)
        }
    } else {
        (StageView::Children(standard, i, children, j, collected), ActionView::Fetch(children[j]))
    }
}

/// Asking for the `j`-th feed the home page links to, or the link crawl after them.
pub open spec fn enter_home_feeds(feeds: Seq<Seq<char>>, j: int, html: Seq<char>) -> (StageView, ActionView) {
    if 0 <= j < feeds.len() {
        (StageView::HomeFeed(feeds, j, html), ActionView::Fetch(feeds[j]))
    } else {
        (StageView::Crawl, ActionView::LinkCrawl(html))
    }
}

/// The pages a feed's items link to.
pub open spec fn feed_pages(body: Seq<char>) -> Seq<Seq<char>> {
    feed_scan(xml_events(body)).urls
}

/// The pages a fetched feed gives: none unless it answered 200 (and, when
/// `needs_items`, mentions `<item` or `<entry`) and its items link to pages;
/// then at most `max` of them.
pub open spec fn feed_found(f: Option<(u16, Seq<char>)>, needs_items: bool, max: int) -> Option<Seq<Seq<char>>> {
    match f {
        Some((status, body)) => if status != 200 || (needs_items && !contains(body, "<item"@)
            && !contains(body, "<entry"@)) || feed_pages(body).len() == 0 {
            None
        } else {
            Some(first_n(feed_pages(body), max))
        },
        None => None,
    }
}

/// How pages found at the `k`-th standard feed location are labelled.
pub open spec fn feed_label(k: int) -> Seq<char> {
    if 0 <= k < rss_path_list().len() {
        "rss:"@ + rss_path_list()[k]
    } else {
        "rss:"@
    }
}

/// A sitemap answer is an index when it mentions `<sitemapindex`.
pub open spec fn is_index(body: Seq<char>) -> bool {
    contains(body, "<sitemapindex"@) || contains(body, "<sitemapindex>"@)
}

/// One step of the discovery: from the stage and what the last action brought,
/// the next stage and action. An event that does not fit the stage ends the
/// discovery with nothing found.
pub open spec fn discovery_next(
    stage: StageView,
    sitemaps: Seq<Seq<char>>,
    base: Seq<char>,
    event: EventView,
    max: int,
) -> (StageView, ActionView) {
    let root = trim_end_char(base, '/');
    match (stage, event) {
        (StageView::Start, EventView::Begin) => enter_sitemap(sitemaps, root, false, 0),
        (StageView::Sitemap(standard, i), EventView::Fetched(f)) => match f {
            Some((status, body)) => if status != 200 {
                enter_sitemap(sitemaps, root, standard, i + 1)
            } else if is_index(body) {
                enter_children(sitemaps, root, standard, i, listed_pages(body), 0, Seq::empty(), max)
            } else if first_n(listed_pages(body), max).len() > 0 {
                finish_with(first_n(listed_pages(body), max), source_label(standard, i))
            } else {
                enter_sitemap(sitemaps, root, standard, i + 1)
            },
            None => enter_sitemap(sitemaps, root, standard, i + 1),
        },
        (StageView::Children(standard, i, children, j, collected), EventView::Fetched(f)) => {
            let more = match f {
                Some((status, body)) => if status == 200 {
                    listed_pages(body)
                } else {
                    Seq::empty()
                },
                None => Seq::empty(),
            };
            enter_children(sitemaps, root, standard, i, children, j + 1, collected + more, max)
        },
        (StageView::Feed(k), EventView::Fetched(f)) => match feed_found(f, true, max) {
            Some(urls) => finish_with(urls, feed_label(k)),
            None => enter_feed(root, k + 1),
        },
        (StageView::Home, EventView::Fetched(f)) => match f {
            Some((status, body)) => if status == 200 {
                enter_home_feeds(feed_links(base, feed_link_hrefs(body)), 0, body)
            } else {
                finish_with(Seq::empty(), "none"@)
            },
            None => finish_with(Seq::empty(), "none"@),
        },
        (StageView::HomeFeed(feeds, j, html), EventView::Fetched(f)) => match feed_found(f, false, max) {
            Some(urls) => finish_with(urls, "rss:html_link"@),
            None => enter_home_feeds(feeds, j + 1, html),
        },
        (StageView::Crawl, EventView::Crawled(links)) => if links.len() > 0 {
            finish_with(links, "bfs_crawl"@)
        } else {
            finish_with(Seq::empty(), "none"@)
        },
        _ => finish_with(Seq::empty(), "none"@),
    }
}

fn finish(urls: Vec<String>, label: &str) -> (r: (DiscoveryStage, DiscoveryAction))
    ensures
        step_view(r) == finish_with(views(urls@), label@),
{
    (DiscoveryStage::Finished, DiscoveryAction::Finish(urls, string_of(chars_of(label).as_slice())))
}

fn nothing_found() -> (r: (DiscoveryStage, DiscoveryAction))
    ensures
        step_view(r) == finish_with(Seq::empty(), "none"@),
{
    let v: Vec<String> = Vec::new();
    assert(views(v@) =~= Seq::<Seq<char>>::empty());
    finish(v, "none")
}

fn enter_feed_of(root: &str, k: usize) -> (r: (DiscoveryStage, DiscoveryAction))
    ensures
        step_view(r) == enter_feed(root@, k as int),
{
    let paths = rss_paths();
    assert(paths@.len() == str_views(paths@).len());
    if k < paths.len() {
        assert(paths@[k as int]@ == str_views(paths@)[k as int]);
        (DiscoveryStage::Feed { index: k }, DiscoveryAction::Fetch(url_with_path(root, paths[k])))
    } else {
        (DiscoveryStage::Home, DiscoveryAction::Fetch(string_of(chars_of(root).as_slice())))
    }
}

fn enter_sitemap_of(robots: &RobotsInfo, root: &str, standard: bool, i: usize) -> (r: (
    DiscoveryStage,
    DiscoveryAction,
))
    ensures
        step_view(r) == enter_sitemap(views(robots.sitemaps@), root@, standard, i as int),
{
    let paths = sitemap_paths();
    assert(paths@.len() == str_views(paths@).len());
    if !standard && i < robots.sitemaps.len() {
        let u = string_of(chars_of(robots.sitemaps[i].as_str()).as_slice());
        (DiscoveryStage::Sitemap { standard: false, index: i }, DiscoveryAction::Fetch(u))
    } else if !standard {
        assert(paths@[0]@ == str_views(paths@)[0]);
        (DiscoveryStage::Sitemap { standard: true, index: 0 }, DiscoveryAction::Fetch(url_with_path(root, paths[0])))
    } else if i < paths.len() {
        assert(paths@[i as int]@ == str_views(paths@)[i as int]);
        (DiscoveryStage::Sitemap { standard: true, index: i }, DiscoveryAction::Fetch(url_with_path(root, paths[i])))
    } else {
        enter_feed_of(root, 0)
    }
}

fn source_label_of(standard: bool, i: usize) -> (l: String)
    ensures
        l@ == source_label(standard, i as int),
{
    let paths = sitemap_paths();
    assert(paths@.len() == str_views(paths@).len());
    if standard && i < paths.len() {
        assert(paths@[i as int]@ == str_views(paths@)[i as int]);
        let mut v = chars_of("sitemap:");
        append(&mut v, chars_of(paths[i]).as_slice());
        string_of(v.as_slice())
    } else if standard {
        string_of(chars_of("sitemap:").as_slice())
    } else {
        string_of(chars_of("robots_sitemap").as_slice())
    }
}

/// The next sitemap source after this one.
fn next_source(robots: &RobotsInfo, root: &str, standard: bool, i: usize) -> (r: (DiscoveryStage, DiscoveryAction))
    ensures
        step_view(r) == enter_sitemap(views(robots.sitemaps@), root@, standard, i + 1),
{
    if !standard && i >= robots.sitemaps.len() {
        enter_sitemap_of(robots, root, false, robots.sitemaps.len())
    } else if standard && i >= 5 {
        proof {
            assert(sitemap_path_list().len() == 5);
        }
        enter_feed_of(root, 0)
    } else {
        proof {
            assert(sitemap_path_list().len() == 5);
        }
        enter_sitemap_of(robots, root, standard, i + 1)
    }
}

fn enter_children_of(
    robots: &RobotsInfo,
    root: &str,
    standard: bool,
    i: usize,
    children: Vec<String>,
    j: usize,
    collected: Vec<String>,
    max: usize,
) -> (r: (DiscoveryStage, DiscoveryAction))
    ensures
        step_view(r) == enter_children(
            views(robots.sitemaps@),
            root@,
            standard,
            i as int,
            views(children@),
            j as int,
            views(collected@),
            max as int,
        ),
{
    if collected.len() >= max || j >= children.len() {
        match some_urls(&collected, max) {
            Some(v) => {
                if v.len() > 0 {
                    let label = source_label_of(standard, i);
                    return (DiscoveryStage::Finished, DiscoveryAction::Finish(v, label));
                }
                next_source(robots, root, standard, i)
            },
            None => next_source(robots, root, standard, i),
        }
    } else {
        let u = string_of(chars_of(children[j].as_str()).as_slice());
        (DiscoveryStage::Children { standard, index: i, children, next: j, collected }, DiscoveryAction::Fetch(u))
    }
}

fn enter_home_feeds_of(feeds: Vec<String>, j: usize, html: String) -> (r: (DiscoveryStage, DiscoveryAction))
    ensures
        step_view(r) == enter_home_feeds(views(feeds@), j as int, html@),
{
    if j < feeds.len() {
        let u = string_of(chars_of(feeds[j].as_str()).as_slice());
        (DiscoveryStage::HomeFeed { feeds, next: j, html }, DiscoveryAction::Fetch(u))
    } else {
        (DiscoveryStage::Crawl, DiscoveryAction::LinkCrawl(html))
    }
}

fn feed_label_of(k: usize) -> (l: String)
    ensures
        l@ == feed_label(k as int),
{
    let paths = rss_paths();
    assert(paths@.len() == str_views(paths@).len());
    let mut v = chars_of("rss:");
    if k < paths.len() {
        assert(paths@[k as int]@ == str_views(paths@)[k as int]);
        append(&mut v, chars_of(paths[k]).as_slice());
    }
    string_of(v.as_slice())
}

/// One step of the discovery of a site's pages: from the stage it stands at,
/// the site's robots.txt, the home page URL `base` and what the last action
/// brought, the next stage and the next action.
pub fn discovery_step(
    stage: DiscoveryStage,
    robots: &RobotsInfo,
    base: &str,
    event: DiscoveryEvent,
    max_pages: usize,
) -> (r: (DiscoveryStage, DiscoveryAction))
    ensures
        step_view(r) == discovery_next(
            stage_view(stage),
            views(robots.sitemaps@),
            base@,
            event_view(event),
            max_pages as int,
        ),
{
    let rc = chars_of(base);
    let root = string_of(trim_end_char_of(rc.as_slice(), '/'));
    let root = root.as_str();
    match (stage, event) {
        (DiscoveryStage::Start, DiscoveryEvent::Begin) => enter_sitemap_of(robots, root, false, 0),
        (DiscoveryStage::Sitemap { standard, index }, DiscoveryEvent::Fetched(f)) => {
            match read_sitemap(&f) {
                SitemapFetch::Missing => next_source(robots, root, standard, index),
                SitemapFetch::Index(children) => {
                    let none: Vec<String> = Vec::new();
                    assert(views(none@) =~= Seq::<Seq<char>>::empty());
                    enter_children_of(robots, root, standard, index, children, 0, none, max_pages)
                },
                SitemapFetch::Pages(urls) => {
                    let kept = take_urls(&urls, max_pages);
                    if kept.len() > 0 {
                        let label = source_label_of(standard, index);
                        (DiscoveryStage::Finished, DiscoveryAction::Finish(kept, label))
                    } else {
                        next_source(robots, root, standard, index)
                    }
                },
            }
        },
        (
            DiscoveryStage::Children { standard, index, children, next, collected },
            DiscoveryEvent::Fetched(f),
        ) => {
            let more = child_sitemap_urls(&f);
            let ghost before = views(collected@);
            let mut collected = collected;
            let mut k: usize = 0;
            while k < more.len()
                invariant
                    k <= more@.len(),
                    views(collected@) == before + views(more@).take(k as int),
                decreases more@.len() - k,
            {
                let ghost prev = views(collected@);
                collected.push(string_of(chars_of(more[k].as_str()).as_slice()));
                assert(views(collected@) =~= prev.push(more@[k as int]@));
                assert(views(more@).take(k + 1) =~= views(more@).take(k as int).push(more@[k as int]@));
                k = k + 1;
            }
            assert(views(more@).take(more@.len() as int) =~= views(more@));
            let nj = if next < children.len() {
                next + 1
            } else {
                children.len()
            };
            enter_children_of(robots, root, standard, index, children, nj, collected, max_pages)
        },
        (DiscoveryStage::Feed { index }, DiscoveryEvent::Fetched(f)) => {
            match feed_urls(&f, true, max_pages) {
                Some(urls) => (DiscoveryStage::Finished, DiscoveryAction::Finish(urls, feed_label_of(index))),
                None => {
                    let nk = if index < 6 {
                        index + 1
                    } else {
                        6
                    };
                    enter_feed_of(root, nk)
                },
            }
        },
        (DiscoveryStage::Home, DiscoveryEvent::Fetched(f)) => match f {
            Ok(page) => {
                if page.status_code == 200 {
                    let feeds = extract_rss_links(page.content.as_str(), base);
                    enter_home_feeds_of(feeds, 0, page.content)
                } else {
                    nothing_found()
                }
            },
            Err(_) => nothing_found(),
        },
        (DiscoveryStage::HomeFeed { feeds, next, html }, DiscoveryEvent::Fetched(f)) => {
            match feed_urls(&f, false, max_pages) {
                Some(urls) => finish(urls, "rss:html_link"),
                None => {
                    let nj = if next < feeds.len() {
                        next + 1
                    } else {
                        feeds.len()
                    };
                    enter_home_feeds_of(feeds, nj, html)
                },
            }
        },
        (DiscoveryStage::Crawl, DiscoveryEvent::Crawled(links)) => {
            if links.len() > 0 {
                finish(links, "bfs_crawl")
            } else {
                nothing_found()
            }
        },
        _ => nothing_found(),
    }
}

} // verus!
