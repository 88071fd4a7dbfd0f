//! robots.txt rules, sitemap and RSS discovery.
use vstd::prelude::*;
use quick_xml::events::Event;
use crate::text::{
    chars_of, contains, contains_str, eq_str, find, find_of, lines, lines_of, lower_eq,
    lower_eq_str, parse_u64, parse_u64_of, starts_with, starts_with_of, starts_with_str,
    str_views, string_of, trim, trim_of, views, vviews, lemma_trim_idempotent,
};
use crate::weburl::{join_url, joined_url, parse_url, parsed_url, parts_view};

verus! {

/// What a robots.txt says about a site.
#[derive(Debug, Clone)]
pub struct RobotsInfo {
    pub sitemaps: Vec<String>,
    pub disallowed: Vec<String>,
    pub crawl_delay: Option<u64>,
}

/// The state of a robots.txt scan after some lines.
pub struct RobotsScan {
    pub sitemaps: Seq<Seq<char>>,
    pub disallowed: Seq<Seq<char>>,
    pub crawl_delay: Option<u64>,
    /// Whether the lines read are inside a `User-agent: *` group.
    pub in_any_agent: bool,
}

/// The scan before any line.
pub open spec fn robots_start() -> RobotsScan {
    RobotsScan {
        sitemaps: Seq::empty(),
        disallowed: Seq::empty(),
        crawl_delay: None,
        in_any_agent: false,
    }
}

/// How one `key: value` directive changes the scan.
pub open spec fn robots_directive(st: RobotsScan, key: Seq<char>, value: Seq<char>) -> RobotsScan {
    if lower_eq(key, "sitemap"@) {
        if value.len() > 0 {
            RobotsScan { sitemaps: st.sitemaps.push(value), ..st }
        } else {
            st
        }
    } else if lower_eq(key, "user-agent"@) {
        RobotsScan { in_any_agent: value == "*"@, ..st }
    } else if lower_eq(key, "disallow"@) && st.in_any_agent {
        if value.len() > 0 {
            RobotsScan { disallowed: st.disallowed.push(value), ..st }
        } else {
            st
        }
    } else if lower_eq(key, "crawl-delay"@) && st.in_any_agent {
        RobotsScan { crawl_delay: parse_u64(value), ..st }
    } else {
        st
    }
}

/// How one line changes the scan: blank lines, `#` comments and lines without a
/// `:` change nothing; otherwise the line is a directive split at its first `:`,
/// both sides trimmed.
pub open spec fn robots_line(st: RobotsScan, line: Seq<char>) -> RobotsScan {
    let l = trim(line);
    if l.len() == 0 || starts_with(l, seq!['#']) {
        st
    } else {
        match find(l, seq![':']) {
            None => st,
            Some(i) => robots_directive(st, trim(l.take(i)), trim(l.skip(i + 1))),
        }
    }
}

/// The scan after the lines `ls`.
pub open spec fn robots_scan(ls: Seq<Seq<char>>) -> RobotsScan
    decreases ls.len(),
{
    if ls.len() == 0 {
        robots_start()
    } else {
        robots_line(robots_scan(ls.drop_last()), ls.last())
    }
}

/// The `key: value` directive a robots.txt line holds: the line trimmed, split
/// at its first `:`, both sides trimmed; blank lines, `#` comments and lines
/// without a `:` hold none.
pub open spec fn robots_directive_in(line: Seq<char>) -> Option<(Seq<char>, Seq<char>)> {
    let l = trim(line);
    if l.len() == 0 || starts_with(l, seq!['#']) {
        None
    } else {
        match find(l, seq![':']) {
            None => None,
            Some(i) => Some((trim(l.take(i)), trim(l.skip(i + 1)))),
        }
    }
}

/// A line that starts a `User-agent` group.
pub open spec fn is_agent_line(line: Seq<char>) -> bool {
    robots_directive_in(line) matches Some((k, _)) && lower_eq(k, "user-agent"@)
}

/// The non-empty `Disallow` values among `lines`, in order.
pub open spec fn disallow_values(lines: Seq<Seq<char>>) -> Seq<Seq<char>>
    decreases lines.len(),
{
    if lines.len() == 0 {
        Seq::empty()
    } else {
        let rest = disallow_values(lines.drop_last());
        match robots_directive_in(lines.last()) {
            Some((k, v)) => if lower_eq(k, "disallow"@) && v.len() > 0 {
                rest.push(v)
            } else {
                rest
            },
            None => rest,
        }
    }
}

/// The value of the last `Crawl-delay` line among `lines`, read as a number
/// (`None` inside when it is not one), if there is such a line.
pub open spec fn last_crawl_delay(lines: Seq<Seq<char>>) -> Option<Option<u64>>
    decreases lines.len(),
{
    if lines.len() == 0 {
        None
    } else {
        match robots_directive_in(lines.last()) {
            Some((k, v)) => if lower_eq(k, "crawl-delay"@) {
                Some(parse_u64(v))
            } else {
                last_crawl_delay(lines.drop_last())
            },
            None => last_crawl_delay(lines.drop_last()),
        }
    }
}

proof fn lemma_robots_keys_differ()
    ensures
        forall|k: Seq<char>| lower_eq(k, "user-agent"@) ==> !lower_eq(k, "sitemap"@) && !lower_eq(k, "disallow"@)
            && !lower_eq(k, "crawl-delay"@),
        forall|k: Seq<char>| lower_eq(k, "disallow"@) ==> !lower_eq(k, "sitemap"@),
        forall|k: Seq<char>| lower_eq(k, "crawl-delay"@) ==> !lower_eq(k, "sitemap"@) && !lower_eq(k, "disallow"@),
{
    reveal_strlit("user-agent");
    reveal_strlit("sitemap");
    reveal_strlit("disallow");
    reveal_strlit("crawl-delay");
}

/// The Disallow and Crawl-delay lines of a group whose `User-agent` is not `*`
/// are not taken, whatever groups came before: a robots.txt that goes on with
/// such a group has the rules and delay it had before the group.
pub proof fn law_robots_other_agent_ignored(
    before: Seq<Seq<char>>,
    agent: Seq<char>,
    group: Seq<Seq<char>>,
    key: Seq<char>,
    value: Seq<char>,
)
    requires
        robots_directive_in(agent) == Some((key, value)),
        lower_eq(key, "user-agent"@),
        value != "*"@,
        forall|k: int| 0 <= k < group.len() ==> !is_agent_line(#[trigger] group[k]),
    ensures
        robots_scan(before.push(agent) + group).disallowed == robots_scan(before).disallowed,
        robots_scan(before.push(agent) + group).crawl_delay == robots_scan(before).crawl_delay,
        !robots_scan(before.push(agent) + group).in_any_agent,
    decreases group.len(),
{
    lemma_robots_keys_differ();
    if group.len() == 0 {
        assert(before.push(agent) + group =~= before.push(agent));
        assert(before.push(agent).drop_last() =~= before);
    } else {
        let g = group.drop_last();
        assert forall|k: int| 0 <= k < g.len() implies !is_agent_line(#[trigger] g[k]) by {
            assert(g[k] == group[k]);
        }
        law_robots_other_agent_ignored(before, agent, g, key, value);
        assert((before.push(agent) + group).drop_last() =~= before.push(agent) + g);
        assert((before.push(agent) + group).last() == group[group.len() - 1]);
        assert(!is_agent_line(group[group.len() - 1]));
    }
}

/// The Disallow lines of a `User-agent: *` group are taken, in order: a
/// robots.txt that goes on with such a group has the rules it had before, then
/// the group's non-empty Disallow values.
pub proof fn law_robots_any_agent_taken(
    before: Seq<Seq<char>>,
    agent: Seq<char>,
    group: Seq<Seq<char>>,
    key: Seq<char>,
)
    requires
        robots_directive_in(agent) == Some((key, "*"@)),
        lower_eq(key, "user-agent"@),
        forall|k: int| 0 <= k < group.len() ==> !is_agent_line(#[trigger] group[k]),
    ensures
        robots_scan(before.push(agent) + group).disallowed == robots_scan(before).disallowed + disallow_values(
            group,
        ),
        robots_scan(before.push(agent) + group).in_any_agent,
        robots_scan(before.push(agent) + group).crawl_delay == match last_crawl_delay(group) {
            Some(d) => d,
            None => robots_scan(before).crawl_delay,
        },
    decreases group.len(),
{
    lemma_robots_keys_differ();
    if group.len() == 0 {
        assert(before.push(agent) + group =~= before.push(agent));
        assert(before.push(agent).drop_last() =~= before);
        assert(robots_scan(before).disallowed + disallow_values(group) =~= robots_scan(before).disallowed);
    } else {
        let g = group.drop_last();
        assert forall|k: int| 0 <= k < g.len() implies !is_agent_line(#[trigger] g[k]) by {
            assert(g[k] == group[k]);
        }
        law_robots_any_agent_taken(before, agent, g, key);
        assert((before.push(agent) + group).drop_last() =~= before.push(agent) + g);
        assert((before.push(agent) + group).last() == group[group.len() - 1]);
        assert(!is_agent_line(group[group.len() - 1]));
        let prev = robots_scan(before).disallowed;
        assert((prev + disallow_values(g)).push(group.last()) =~= prev + disallow_values(g).push(group.last()));
        match robots_directive_in(group.last()) {
            Some((k, v)) => {
                if lower_eq(k, "disallow"@) && v.len() > 0 {
                    assert((prev + disallow_values(g)).push(v) =~= prev + disallow_values(g).push(v));
                }
            },
            None => {},
        }
    }
}

/// Reads a robots.txt: every non-empty `Sitemap:` value, and the non-empty
/// `Disallow:` values and last `Crawl-delay:` of the `User-agent: *` groups.
/// Keys are matched without regard to case.
pub fn parse_robots_txt(content: &str, _user_agent: &str) -> (info: RobotsInfo)
    ensures
        views(info.sitemaps@) == robots_scan(lines(content@)).sitemaps,
        views(info.disallowed@) == robots_scan(lines(content@)).disallowed,
        info.crawl_delay == robots_scan(lines(content@)).crawl_delay,
{
    let chars = chars_of(content);
    let ls = lines_of(chars.as_slice());
    let ghost all = lines(content@);
    let mut sitemaps: Vec<String> = Vec::new();
    let mut disallowed: Vec<String> = Vec::new();
    let mut crawl_delay: Option<u64> = None;
    let mut in_any_agent = false;
    let mut n: usize = 0;
    assert(all.take(0) =~= Seq::<Seq<char>>::empty());
    while n < ls.len()
        invariant
            vviews(ls@) == all,
            n <= ls@.len(),
            views(sitemaps@) == robots_scan(all.take(n as int)).sitemaps,
            views(disallowed@) == robots_scan(all.take(n as int)).disallowed,
            crawl_delay == robots_scan(all.take(n as int)).crawl_delay,
            in_any_agent == robots_scan(all.take(n as int)).in_any_agent,
        decreases ls@.len() - n,
    {
        assert(all.take(n + 1).drop_last() =~= all.take(n as int));
        assert(all.take(n + 1).last() == ls@[n as int]@);
        let ghost before = robots_scan(all.take(n as int));
        let l = trim_of(ls[n].as_slice());
        proof {
            reveal_strlit("#");
            assert("#"@ =~= seq!['#']);
        }
        if l.len() == 0 || starts_with_str(l, "#") {
        } else {
            let colon = chars_of(":");
            proof {
                reveal_strlit(":");
                assert(colon@ =~= seq![':']);
            }
            match find_of(l, colon.as_slice()) {
                None => {},
                Some(i) => {
                    let key = trim_of(&l[0..i]);
                    let value = trim_of(&l[i + 1..l.len()]);
                    assert(l@.take(i as int) =~= l@.subrange(0, i as int));
                    assert(l@.skip(i + 1) =~= l@.subrange(i + 1, l@.len() as int));
                    if lower_eq_str(key, "sitemap") {
                        if value.len() > 0 {
                            sitemaps.push(string_of(value));
                            assert(views(sitemaps@) =~= before.sitemaps.push(value@));
                        }
                    } else if lower_eq_str(key, "user-agent") {
                        in_any_agent = eq_str(value, "*");
                    } else if lower_eq_str(key, "disallow") && in_any_agent {
                        if value.len() > 0 {
                            disallowed.push(string_of(value));
                            assert(views(disallowed@) =~= before.disallowed.push(value@));
                        }
                    } else if lower_eq_str(key, "crawl-delay") && in_any_agent {
                        crawl_delay = parse_u64_of(value);
                    }
                },
            }
        }
        assert(robots_scan(all.take(n + 1)) == robots_line(before, ls@[n as int]@));
        n = n + 1;
    }
    assert(all.take(ls@.len() as int) =~= all);
    RobotsInfo { sitemaps, disallowed, crawl_delay }
}

/// A path is allowed when no disallow rule is a prefix of it.
pub fn is_allowed(path: &str, disallowed: &[String]) -> (allowed: bool)
    ensures
        allowed == forall|k: int|
            0 <= k < disallowed@.len() ==> !starts_with(path@, #[trigger] disallowed@[k]@),
{
    let p = chars_of(path);
    let mut k: usize = 0;
    while k < disallowed.len()
        invariant
            p@ == path@,
            k <= disallowed@.len(),
            forall|j: int| 0 <= j < k ==> !starts_with(path@, #[trigger] disallowed@[j]@),
        decreases disallowed@.len() - k,
    {
        let rule = chars_of(disallowed[k].as_str());
        if starts_with_of(p.as_slice(), rule.as_slice()) {
            return false;
        }
        k = k + 1;
    }
    true
}

/// Whether a sitemap document is a sitemap index.
pub fn is_sitemap_index(xml: &str) -> (b: bool)
    ensures
        b == (contains(xml@, "<sitemapindex"@) || contains(xml@, "<sitemapindex>"@)),
{
    let x = chars_of(xml);
    contains_str(x.as_slice(), "<sitemapindex") || contains_str(x.as_slice(), "<sitemapindex>")
}

/// The standard sitemap locations.
pub open spec fn sitemap_path_list() -> Seq<Seq<char>> {
    seq![
        "/sitemap.xml"@,
        "/sitemap_index.xml"@,
        "/sitemap-index.xml"@,
        "/sitemaps/sitemap.xml"@,
        "/wp-sitemap.xml"@,
    ]
}

/// Standard sitemap paths to try, in order.
pub fn sitemap_paths() -> (paths: Vec<&'static str>)
    ensures
        str_views(paths@) == sitemap_path_list(),
{
    let v = vec![
        "/sitemap.xml",
        "/sitemap_index.xml",
        "/sitemap-index.xml",
        "/sitemaps/sitemap.xml",
        "/wp-sitemap.xml",
    ];
    assert(str_views(v@) =~= sitemap_path_list());
    v
}

/// The standard feed locations.
pub open spec fn rss_path_list() -> Seq<Seq<char>> {
    seq![
        "/feed"@,
        "/rss"@,
        "/atom.xml"@,
        "/feed.xml"@,
        "/index.xml"@,
        "/rss.xml"@,
    ]
}

/// RSS feed paths to try as a fallback, in order.
pub fn rss_paths() -> (paths: Vec<&'static str>)
    ensures
        str_views(paths@) == rss_path_list(),
{
    let v = vec!["/feed", "/rss", "/atom.xml", "/feed.xml", "/index.xml", "/rss.xml"];
    assert(str_views(v@) =~= rss_path_list());
    v
}

// ---------------------------------------------------------------------------
// Sitemap documents
// ---------------------------------------------------------------------------
/// An XML parse event, as far as sitemap reading needs it.
#[derive(Debug, Clone)]
pub enum XmlEvent {
    /// A start or empty-element tag, with its qualified name and the unescaped
    /// value of its `href` attribute, when it has one.
    Open(Vec<u8>, Option<String>),
    /// An end tag, with its qualified name.
    Close(Vec<u8>),
    /// Character data, unescaped (`None` when unescaping failed).
    Text(Option<String>),
    /// The end of the document.
    Eof,
    /// A syntax error.
    Error,
    /// Anything else (declarations, comments, CDATA, ...).
    Other,
}

/// The view of an XML parse event.
pub enum XmlEventView {
    Open(Seq<u8>, Option<Seq<char>>),
    Close(Seq<u8>),
    Text(Option<Seq<char>>),
    Eof,
    Error,
    Other,
}

/// The view of an event.
pub open spec fn event_view(e: XmlEvent) -> XmlEventView {
    match e {
        XmlEvent::Open(n, h) => XmlEventView::Open(
            n@,
            match h {
                Some(x) => Some(x@),
                None => None,
            },
        ),
        XmlEvent::Close(n) => XmlEventView::Close(n@),
        XmlEvent::Text(t) => XmlEventView::Text(
            match t {
                Some(x) => Some(x@),
                None => None,
            },
        ),
        XmlEvent::Eof => XmlEventView::Eof,
        XmlEvent::Error => XmlEventView::Error,
        XmlEvent::Other => XmlEventView::Other,
    }
}

/// The views of events.
pub open spec fn event_views(evs: Seq<XmlEvent>) -> Seq<XmlEventView> {
    evs.map_values(|e: XmlEvent| event_view(e))
}

/// Whether an event ends the reading of a document.
pub open spec fn is_stop(ev: XmlEventView) -> bool {
    ev is Eof || ev is Error
}

#[verifier::external_type_specification]
#[verifier::external_body]
#[verifier::reject_recursive_types(R)]
pub struct ExXmlReader<R>(quick_xml::Reader<R>);

/// The events `quick_xml` reads from the document `xml`, up to and including
/// the end of the document or the first error.
pub uninterp spec fn xml_events(xml: Seq<char>) -> Seq<XmlEventView>;

/// The events a `quick_xml` reader has still to give, up to and including the
/// end of the document or the first error.
pub uninterp spec fn pending_events(reader: quick_xml::Reader<&[u8]>) -> Seq<XmlEventView>;

/// `quick_xml::Reader::from_str`: a reader positioned at the start of `xml`.
/// Claimed: it will give the document's events, which end with the end of the
/// document or an error, and only there.
#[verifier::external_body]
fn xml_reader(xml: &str) -> (reader: quick_xml::Reader<&[u8]>)
    ensures
        pending_events(reader) == xml_events(xml@),
        pending_events(reader).len() > 0,
        is_stop(pending_events(reader).last()),
        forall|i: int|
            0 <= i < pending_events(reader).len() - 1 ==> !is_stop(#[trigger] pending_events(reader)[i]),
{
    quick_xml::Reader::from_str(xml)
}

/// `quick_xml::Reader::read_event`, converted (with a tag's `href` attribute
/// as `BytesStart::try_get_attribute` and `Attribute::unescape_value` give
/// it). Claimed: it gives the reader's next pending event and moves past it.
#[verifier::external_body]
fn next_xml_event(reader: &mut quick_xml::Reader<&[u8]>) -> (ev: XmlEvent)
    requires
        pending_events(*old(reader)).len() > 0,
    ensures
        event_view(ev) == pending_events(*old(reader))[0],
        pending_events(*final(reader)) == pending_events(*old(reader)).drop_first(),
{
    match reader.read_event() {
        Ok(Event::Start(e)) | Ok(Event::Empty(e)) => XmlEvent::Open(
            e.name().as_ref().to_vec(),
            e.try_get_attribute("href").ok().flatten().and_then(|a| a.unescape_value().ok()).map(|v| v.into_owned()),
        ),
        Ok(Event::End(e)) => XmlEvent::Close(e.name().as_ref().to_vec()),
        Ok(Event::Text(e)) => XmlEvent::Text(e.unescape().ok().map(|t| t.into_owned())),
        Ok(Event::Eof) => XmlEvent::Eof,
        Ok(_) => XmlEvent::Other,
        Err(_) => XmlEvent::Error,
    }
}

/// The tag name `loc`.
pub open spec fn loc_name() -> Seq<u8> {
    seq![108u8, 111u8, 99u8]
}

/// The state of a scan for `<loc>` values.
pub struct LocScan {
    pub urls: Seq<Seq<char>>,
    pub in_loc: bool,
    pub stopped: bool,
}

/// How one event changes the scan: `<loc>` opens and `</loc>` closes a location;
/// non-empty trimmed text inside a location is a URL; the end of the document or
/// an error stops the scan.
pub open spec fn loc_step(st: LocScan, ev: XmlEventView) -> LocScan {
    if st.stopped {
        st
    } else {
        match ev {
            XmlEventView::Open(n, _) => if n == loc_name() {
                LocScan { in_loc: true, ..st }
            } else {
                st
            },
            XmlEventView::Close(n) => if n == loc_name() {
                LocScan { in_loc: false, ..st }
            } else {
                st
            },
            XmlEventView::Text(t) => match t {
                Some(text) => if st.in_loc && trim(text).len() > 0 {
                    LocScan { urls: st.urls.push(trim(text)), ..st }
                } else {
                    st
                },
                None => st,
            },
            XmlEventView::Eof => LocScan { stopped: true, ..st },
            XmlEventView::Error => LocScan { stopped: true, ..st },
            XmlEventView::Other => st,
        }
    }
}

/// The scan after the events `evs`.
pub open spec fn loc_scan(evs: Seq<XmlEventView>) -> LocScan
    decreases evs.len(),
{
    if evs.len() == 0 {
        LocScan { urls: Seq::empty(), in_loc: false, stopped: false }
    } else {
        loc_step(loc_scan(evs.drop_last()), evs.last())
    }
}

/// None of the events is a stop.
pub open spec fn no_stop(evs: Seq<XmlEventView>) -> bool {
    forall|i: int| 0 <= i < evs.len() ==> !is_stop(#[trigger] evs[i])
}

/// The text right inside a `<loc>` element is a URL: a sitemap read that goes on
/// with `<loc>` and a text gives the URLs it gave, then the trimmed text (when
/// it is not empty).
pub proof fn law_loc_text_taken(evs: Seq<XmlEventView>, href: Option<Seq<char>>, text: Seq<char>)
    requires
        no_stop(evs),
        trim(text).len() > 0,
    ensures
        loc_scan(evs.push(XmlEventView::Open(loc_name(), href)).push(XmlEventView::Text(Some(text)))).urls
            == loc_scan(evs).urls.push(trim(text)),
{
    lemma_loc_not_stopped(evs);
    let e1 = evs.push(XmlEventView::Open(loc_name(), href));
    assert(e1.drop_last() =~= evs);
    let e2 = e1.push(XmlEventView::Text(Some(text)));
    assert(e2.drop_last() =~= e1);
    assert(loc_scan(e1) == loc_step(loc_scan(evs), XmlEventView::Open(loc_name(), href)));
    assert(loc_scan(e1).in_loc && !loc_scan(e1).stopped);
    assert(loc_scan(e2) == loc_step(loc_scan(e1), XmlEventView::Text(Some(text))));
}

/// A scan over events without a stop is not stopped.
proof fn lemma_loc_not_stopped(evs: Seq<XmlEventView>)
    requires
        no_stop(evs),
    ensures
        !loc_scan(evs).stopped,
    decreases evs.len(),
{
    if evs.len() > 0 {
        let d = evs.drop_last();
        assert forall|i: int| 0 <= i < d.len() implies !is_stop(#[trigger] d[i]) by {
            assert(d[i] == evs[i]);
        }
        lemma_loc_not_stopped(d);
        assert(!is_stop(evs[evs.len() - 1]));
    }
}

/// `</loc>` ends a location: whatever follows it up to the next `<loc>` (such as
/// a `<lastmod>` text) adds no URL.
pub proof fn law_after_loc_closed(evs: Seq<XmlEventView>, rest: Seq<XmlEventView>)
    requires
        forall|k: int| 0 <= k < rest.len() ==> !((#[trigger] rest[k]) matches XmlEventView::Open(n, _) && n
            == loc_name()),
    ensures
        loc_scan(evs.push(XmlEventView::Close(loc_name())) + rest).urls == loc_scan(evs).urls,
        loc_scan(evs.push(XmlEventView::Close(loc_name())) + rest).stopped || !loc_scan(
            evs.push(XmlEventView::Close(loc_name())) + rest,
        ).in_loc,
    decreases rest.len(),
{
    let e1 = evs.push(XmlEventView::Close(loc_name()));
    if rest.len() == 0 {
        assert(e1 + rest =~= e1);
        assert(e1.drop_last() =~= evs);
    } else {
        let r = rest.drop_last();
        assert forall|k: int| 0 <= k < r.len() implies !((#[trigger] r[k]) matches XmlEventView::Open(n, _) && n
            == loc_name()) by {
            assert(r[k] == rest[k]);
        }
        law_after_loc_closed(evs, r);
        assert((e1 + rest).drop_last() =~= e1 + r);
        assert((e1 + rest).last() == rest[rest.len() - 1]);
    }
}

fn is_loc(n: &Vec<u8>) -> (b: bool)
    ensures
        b == (n@ == loc_name()),
{
    let r = n.len() == 3 && n[0] == 108u8 && n[1] == 111u8 && n[2] == 99u8;
    if r {
        assert(n@ =~= loc_name());
    }
    r
}

/// The URLs of the `<loc>` elements of a sitemap (or sitemap index), given its
/// parse events.
pub fn loc_urls(events: &Vec<XmlEvent>) -> (urls: Vec<String>)
    ensures
        views(urls@) == loc_scan(event_views(events@)).urls,
{
    let ghost all = event_views(events@);
    let mut urls: Vec<String> = Vec::new();
    let mut in_loc = false;
    let mut stopped = false;
    let mut i: usize = 0;
    assert(all.take(0) =~= Seq::<XmlEventView>::empty());
    while i < events.len()
        invariant
            all == event_views(events@),
            i <= events@.len(),
            views(urls@) == loc_scan(all.take(i as int)).urls,
            in_loc == loc_scan(all.take(i as int)).in_loc,
            stopped == loc_scan(all.take(i as int)).stopped,
        decreases events@.len() - i,
    {
        assert(all.take(i + 1).drop_last() =~= all.take(i as int));
        assert(all.take(i + 1).last() == event_view(events@[i as int]));
        if !stopped {
            match &events[i] {
                XmlEvent::Open(n, _) => {
                    if is_loc(n) {
                        in_loc = true;
                    }
                },
                XmlEvent::Close(n) => {
                    if is_loc(n) {
                        in_loc = false;
                    }
                },
                XmlEvent::Text(t) => {
                    if let Some(text) = t {
                        let c = chars_of(text.as_str());
                        let u = trim_of(c.as_slice());
                        if in_loc && u.len() > 0 {
                            let ghost prev = views(urls@);
                            urls.push(string_of(u));
                            assert(views(urls@) =~= prev.push(u@));
                        }
                    }
                },
                XmlEvent::Eof => {
                    stopped = true;
                },
                XmlEvent::Error => {
                    stopped = true;
                },
                XmlEvent::Other => {},
            }
        }
        i = i + 1;
    }
    assert(all.take(events@.len() as int) =~= all);
    urls
}

/// The parse events of the document `xml`, up to and including the end of the
/// document or the first error.
pub fn read_xml_events(xml: &str) -> (events: Vec<XmlEvent>)
    ensures
        event_views(events@) == xml_events(xml@),
{
    let mut reader = xml_reader(xml);
    let ghost all = pending_events(reader);
    let mut events: Vec<XmlEvent> = Vec::new();
    loop
        invariant_except_break
            events@.len() < all.len(),
        invariant
            all == xml_events(xml@),
            all.len() > 0,
            is_stop(all.last()),
            forall|i: int| 0 <= i < all.len() - 1 ==> !is_stop(#[trigger] all[i]),
            event_views(events@) + pending_events(reader) == all,
        ensures
            event_views(events@) == all,
        decreases pending_events(reader).len(),
    {
        let ghost before = pending_events(reader);
        let ev = next_xml_event(&mut reader);
        let stop = match ev {
            XmlEvent::Eof => true,
            XmlEvent::Error => true,
            _ => false,
        };
        let ghost prev = event_views(events@);
        events.push(ev);
        assert(event_views(events@) =~= prev.push(event_view(ev)));
        assert(event_views(events@) + pending_events(reader) =~= all) by {
            assert(before =~= seq![before[0]] + before.drop_first());
        }
        if stop {
            assert(all[events@.len() - 1] == event_view(ev));
            assert(events@.len() == all.len());
            assert(event_views(events@) =~= all);
            break;
        }
    }
    events
}

/// Reads a sitemap (a `urlset` or a `sitemapindex`) and returns the URLs of its
/// `<loc>` elements, each trimmed and non-empty, in document order; reading
/// stops at the end of the document or at the first error.
pub fn parse_sitemap_xml(xml: &str) -> (urls: Vec<String>)
    ensures
        views(urls@) == loc_scan(xml_events(xml@)).urls,
        forall|k: int|
            0 <= k < urls@.len() ==> trim(#[trigger] urls@[k]@) == urls@[k]@ && urls@[k]@.len()
                > 0,
{
    let events = read_xml_events(xml);
    let urls = loc_urls(&events);
    proof {
        lemma_loc_urls_trimmed(event_views(events@));
        assert forall|k: int| 0 <= k < urls@.len() implies trim(#[trigger] urls@[k]@) == urls@[k]@
            && urls@[k]@.len() > 0 by {
            assert(views(urls@)[k] == urls@[k]@);
        }
    }
    urls
}

/// The tag name `item` (an RSS item).
pub open spec fn item_name() -> Seq<u8> {
    seq![105u8, 116u8, 101u8, 109u8]
}

/// The tag name `entry` (an Atom entry).
pub open spec fn entry_name() -> Seq<u8> {
    seq![101u8, 110u8, 116u8, 114u8, 121u8]
}

/// The tag name `link`.
pub open spec fn link_name() -> Seq<u8> {
    seq![108u8, 105u8, 110u8, 107u8]
}

/// The state of a scan for the page links of a feed's items.
pub struct FeedScan {
    pub urls: Seq<Seq<char>>,
    /// Inside an RSS `<item>` or an Atom `<entry>`.
    pub in_item: bool,
    /// Just after an item's `<link>` tag without `href`, whose text is the link.
    pub in_link: bool,
    /// The current item's link is taken.
    pub taken: bool,
    pub stopped: bool,
}

/// How one event changes a feed scan. An `<item>` or `<entry>` starts an item;
/// its first `<link>` gives its page: the trimmed, non-empty `href` of the tag
/// (Atom), or else the trimmed, non-empty text right after the tag (RSS). Links
/// outside items are not pages; the end of the document or an error stops the
/// scan.
pub open spec fn feed_step(st: FeedScan, ev: XmlEventView) -> FeedScan {
    if st.stopped {
        st
    } else {
        match ev {
            XmlEventView::Open(n, href) => if n == item_name() || n == entry_name() {
                FeedScan { in_item: true, in_link: false, taken: false, ..st }
            } else if n == link_name() && st.in_item && !st.taken {
                match href {
                    Some(h) => if trim(h).len() > 0 {
                        FeedScan { urls: st.urls.push(trim(h)), in_link: false, taken: true, ..st }
                    } else {
                        FeedScan { in_link: false, ..st }
                    },
                    None => FeedScan { in_link: true, ..st },
                }
            } else {
                FeedScan { in_link: false, ..st }
            },
            XmlEventView::Close(n) => if n == item_name() || n == entry_name() {
                FeedScan { in_item: false, in_link: false, ..st }
            } else {
                FeedScan { in_link: false, ..st }
            },
            XmlEventView::Text(t) => match t {
                Some(text) => if st.in_link && trim(text).len() > 0 {
                    FeedScan { urls: st.urls.push(trim(text)), in_link: false, taken: true, ..st }
                } else {
                    st
                },
                None => st,
            },
            XmlEventView::Eof => FeedScan { stopped: true, ..st },
            XmlEventView::Error => FeedScan { stopped: true, ..st },
            XmlEventView::Other => st,
        }
    }
}

/// The feed scan after the events `evs`.
pub open spec fn feed_scan(evs: Seq<XmlEventView>) -> FeedScan
    decreases evs.len(),
{
    if evs.len() == 0 {
        FeedScan { urls: Seq::empty(), in_item: false, in_link: false, taken: false, stopped: false }
    } else {
        feed_step(feed_scan(evs.drop_last()), evs.last())
    }
}

fn is_name(n: &Vec<u8>, name: &[u8]) -> (b: bool)
    ensures
        b == (n@ == name@),
{
    if n.len() != name.len() {
        return false;
    }
    let mut i: usize = 0;
    while i < n.len()
        invariant
            n@.len() == name@.len(),
            i <= n@.len(),
            forall|k: int| 0 <= k < i ==> n@[k] == name@[k],
        decreases n@.len() - i,
    {
        if n[i] != name[i] {
            return false;
        }
        i = i + 1;
    }
    assert(n@ =~= name@);
    true
}

/// The page links of a feed's items, given its parse events.
pub fn feed_item_urls(events: &Vec<XmlEvent>) -> (urls: Vec<String>)
    ensures
        views(urls@) == feed_scan(event_views(events@)).urls,
{
    let ghost all = event_views(events@);
    let item: [u8; 4] = [105u8, 116u8, 101u8, 109u8];
    let entry: [u8; 5] = [101u8, 110u8, 116u8, 114u8, 121u8];
    let link: [u8; 4] = [108u8, 105u8, 110u8, 107u8];
    assert(item@ =~= item_name());
    assert(entry@ =~= entry_name());
    assert(link@ =~= link_name());
    let mut urls: Vec<String> = Vec::new();
    let mut in_item = false;
    let mut in_link = false;
    let mut taken = false;
    let mut stopped = false;
    let mut i: usize = 0;
    assert(all.take(0) =~= Seq::<XmlEventView>::empty());
    while i < events.len()
        invariant
            all == event_views(events@),
            item@ == item_name(),
            entry@ == entry_name(),
            link@ == link_name(),
            i <= events@.len(),
            views(urls@) == feed_scan(all.take(i as int)).urls,
            in_item == feed_scan(all.take(i as int)).in_item,
            in_link == feed_scan(all.take(i as int)).in_link,
            taken == feed_scan(all.take(i as int)).taken,
            stopped == feed_scan(all.take(i as int)).stopped,
        decreases events@.len() - i,
    {
        assert(all.take(i + 1).drop_last() =~= all.take(i as int));
        assert(all.take(i + 1).last() == event_view(events@[i as int]));
        if !stopped {
            match &events[i] {
                XmlEvent::Open(n, href) => {
                    if is_name(n, item.as_slice()) || is_name(n, entry.as_slice()) {
                        in_item = true;
                        in_link = false;
                        taken = false;
                    } else if is_name(n, link.as_slice()) && in_item && !taken {
                        match href {
                            Some(h) => {
                                let c = chars_of(h.as_str());
                                let u = trim_of(c.as_slice());
                                if u.len() > 0 {
                                    let ghost prev = views(urls@);
                                    urls.push(string_of(u));
                                    assert(views(urls@) =~= prev.push(u@));
                                    taken = true;
                                }
                                in_link = false;
                            },
                            None => {
                                in_link = true;
                            },
                        }
                    } else {
                        in_link = false;
                    }
                },
                XmlEvent::Close(n) => {
                    if is_name(n, item.as_slice()) || is_name(n, entry.as_slice()) {
                        in_item = false;
                    }
                    in_link = false;
                },
                XmlEvent::Text(t) => {
                    if let Some(text) = t {
                        let c = chars_of(text.as_str());
                        let u = trim_of(c.as_slice());
                        if in_link && u.len() > 0 {
                            let ghost prev = views(urls@);
                            urls.push(string_of(u));
                            assert(views(urls@) =~= prev.push(u@));
                            in_link = false;
                            taken = true;
                        }
                    }
                },
                XmlEvent::Eof => {
                    stopped = true;
                },
                XmlEvent::Error => {
                    stopped = true;
                },
                XmlEvent::Other => {},
            }
        }
        i = i + 1;
    }
    assert(all.take(events@.len() as int) =~= all);
    urls
}

/// Reads an RSS or Atom feed and returns the page of each of its items (the
/// first `<link>` of each `<item>` or `<entry>`: its `href`, or else its text),
/// trimmed and non-empty, in document order; reading stops at the end of the
/// document or at the first error.
pub fn parse_feed_xml(xml: &str) -> (urls: Vec<String>)
    ensures
        views(urls@) == feed_scan(xml_events(xml@)).urls,
{
    let events = read_xml_events(xml);
    feed_item_urls(&events)
}

/// Every URL a scan collects is trimmed and non-empty.
pub proof fn lemma_loc_urls_trimmed(evs: Seq<XmlEventView>)
    ensures
        forall|k: int|
            0 <= k < loc_scan(evs).urls.len() ==> trim(#[trigger] loc_scan(evs).urls[k])
                == loc_scan(evs).urls[k] && loc_scan(evs).urls[k].len() > 0,
    decreases evs.len(),
{
    if evs.len() > 0 {
        lemma_loc_urls_trimmed(evs.drop_last());
        let prev = loc_scan(evs.drop_last());
        if let XmlEventView::Text(Some(text)) = evs.last() {
            lemma_trim_idempotent(text);
        }
    }
}

// ---------------------------------------------------------------------------
// Links in HTML pages
// ---------------------------------------------------------------------------
/// The `href` values of the `<a href>` elements of an HTML document, in document
/// order, as `scraper` selects them.
pub uninterp spec fn anchor_hrefs(html: Seq<char>) -> Seq<Seq<char>>;

/// The `href` values of the RSS and Atom `<link>` elements of an HTML document,
/// in document order, as `scraper` selects them.
pub uninterp spec fn feed_link_hrefs(html: Seq<char>) -> Seq<Seq<char>>;

/// `scraper`: parses `html` and returns the `href` of every `a[href]` element.
#[verifier::external_body]
fn select_anchor_hrefs(html: &str) -> (hrefs: Vec<String>)
    ensures
        views(hrefs@) == anchor_hrefs(html@),
{
    let document = scraper::Html::parse_document(html);
    let selector = scraper::Selector::parse("a[href]").unwrap();
    document.select(&selector).filter_map(|e| e.value().attr("href")).map(String::from).collect()
}

/// `scraper`: parses `html` and returns the `href` of every RSS or Atom
/// `<link>` element.
#[verifier::external_body]
fn select_feed_link_hrefs(html: &str) -> (hrefs: Vec<String>)
    ensures
        views(hrefs@) == feed_link_hrefs(html@),
{
    let document = scraper::Html::parse_document(html);
    let selector = scraper::Selector::parse(
        r#"link[type="application/rss+xml"], link[type="application/atom+xml"]"#,
    ).unwrap();
    document.select(&selector).filter_map(|e| e.value().attr("href")).map(String::from).collect()
}

/// The host of a base URL, when it parses and has one.
pub open spec fn base_host(base: Seq<char>) -> Option<Seq<char>> {
    match parsed_url(base) {
        Some(p) => p.2,
        None => None,
    }
}

/// How one `href` changes the list of links: its resolution is added when it is
/// an http(s) URL on the base's host, has no fragment, and is not listed yet.
pub open spec fn link_step(links: Seq<Seq<char>>, base: Seq<char>, href: Seq<char>) -> Seq<
    Seq<char>,
> {
    match joined_url(base, href) {
        Some(r) => if r.2 == base_host(base) && (r.1 == "http"@ || r.1 == "https"@) && !contains(
            r.0,
            "#"@,
        ) && !links.contains(r.0) {
            links.push(r.0)
        } else {
            links
        },
        None => links,
    }
}

/// `link` parses as an http or https URL whose host is `host`.
pub open spec fn on_site(link: Seq<char>, host: Option<Seq<char>>) -> bool {
    match parsed_url(link) {
        Some(p) => p.2 == host && (p.1 == "http"@ || p.1 == "https"@),
        None => false,
    }
}

/// The links kept from the `hrefs`, in order.
pub open spec fn same_site_links(base: Seq<char>, hrefs: Seq<Seq<char>>) -> Seq<Seq<char>>
    decreases hrefs.len(),
{
    if hrefs.len() == 0 {
        Seq::empty()
    } else {
        link_step(same_site_links(base, hrefs.drop_last()), base, hrefs.last())
    }
}

pub(crate) fn listed(v: &Vec<String>, s: &[char]) -> (b: bool)
    ensures
        b == views(v@).contains(s@),
{
    let mut k: usize = 0;
    while k < v.len()
        invariant
            k <= v@.len(),
            forall|j: int| 0 <= j < k ==> views(v@)[j] != s@,
        decreases v@.len() - k,
    {
        let c = chars_of(v[k].as_str());
        if crate::text::eq(c.as_slice(), s) {
            assert(views(v@)[k as int] == s@);
            return true;
        }
        k = k + 1;
    }
    false
}

/// The same-site links of an HTML page whose URL is `base_url`: every `<a href>`
/// resolved against it, kept when it stays on the same host over http(s) and has
/// no fragment, without duplicates, in document order.
pub fn extract_links(html: &str, base_url: &str) -> (links: Vec<String>)
    ensures
        views(links@) == same_site_links(base_url@, anchor_hrefs(html@)),
        base_host(base_url@) is Some ==> forall|k: int|
            0 <= k < links@.len() ==> on_site(#[trigger] links@[k]@, base_host(base_url@)),
{
    let hrefs = select_anchor_hrefs(html);
    same_site_links_of(base_url, &hrefs)
}

/// The links kept from the `href` values `hrefs` of a page whose URL is
/// `base_url`: each resolved against it, kept when it stays on the same host
/// over http(s) and has no fragment, without duplicates, in order.
pub fn same_site_links_of(base_url: &str, hrefs: &Vec<String>) -> (links: Vec<String>)
    ensures
        views(links@) == same_site_links(base_url@, views(hrefs@)),
        base_host(base_url@) is Some ==> forall|k: int|
            0 <= k < links@.len() ==> on_site(#[trigger] links@[k]@, base_host(base_url@)),
{
    let base = parse_url(base_url);
    let ghost all = views(hrefs@);
    let base_host_v: Option<Vec<char>> = match &base {
        Some(b) => match &b.host {
            Some(h) => Some(chars_of(h.as_str())),
            None => None,
        },
        None => None,
    };
    assert(match base_host_v {
        Some(h) => base_host(base_url@) == Some(h@),
        None => base_host(base_url@) is None,
    });
    let mut links: Vec<String> = Vec::new();
    let mut i: usize = 0;
    assert(all.take(0) =~= Seq::<Seq<char>>::empty());
    while i < hrefs.len()
        invariant
            views(hrefs@) == all,
            i <= hrefs@.len(),
            match base_host_v {
                Some(h) => base_host(base_url@) == Some(h@),
                None => base_host(base_url@) is None,
            },
            views(links@) == same_site_links(base_url@, all.take(i as int)),
            base_host(base_url@) is Some ==> forall|k: int|
                0 <= k < links@.len() ==> on_site(#[trigger] links@[k]@, base_host(base_url@)),
        decreases hrefs@.len() - i,
    {
        assert(all.take(i + 1).drop_last() =~= all.take(i as int));
        assert(all.take(i + 1).last() == hrefs@[i as int]@);
        match join_url(base_url, hrefs[i].as_str()) {
            Some(r) => {
                let text = chars_of(r.text.as_str());
                let scheme = chars_of(r.scheme.as_str());
                let same_host = match (&r.host, &base_host_v) {
                    (Some(h), Some(bh)) => crate::text::eq(chars_of(h.as_str()).as_slice(), bh.as_slice()),
                    (None, None) => true,
                    _ => false,
                };
                if same_host && (eq_str(scheme.as_slice(), "http") || eq_str(scheme.as_slice(), "https"))
                    && !contains_str(text.as_slice(), "#") && !listed(&links, text.as_slice()) {
                    let ghost prev = views(links@);
                    proof {
                        reveal_strlit("http");
                        reveal_strlit("https");
                        if base_host(base_url@) is Some {
                            assert(r.host is Some);
                            assert(on_site(r.text@, base_host(base_url@)));
                        }
                    }
                    let ghost rt = r.text@;
                    links.push(r.text);
                    assert(views(links@) =~= prev.push(text@));
                    assert(links@[links@.len() - 1]@ == rt);
                }
            },
            None => {},
        }
        i = i + 1;
    }
    assert(all.take(hrefs@.len() as int) =~= all);
    links
}

/// The feeds an HTML page links to: the `href` of each RSS or Atom `<link>`
/// element, resolved against the page URL, in document order.
pub open spec fn feed_links(base: Seq<char>, hrefs: Seq<Seq<char>>) -> Seq<Seq<char>>
    decreases hrefs.len(),
{
    if hrefs.len() == 0 {
        Seq::empty()
    } else {
        let prev = feed_links(base, hrefs.drop_last());
        match joined_url(base, hrefs.last()) {
            Some(r) => prev.push(r.0),
            None => prev,
        }
    }
}

/// Extracts the RSS and Atom feed URLs an HTML page links to.
pub fn extract_rss_links(html: &str, base_url: &str) -> (feeds: Vec<String>)
    ensures
        views(feeds@) == feed_links(base_url@, feed_link_hrefs(html@)),
{
    let hrefs = select_feed_link_hrefs(html);
    feed_links_of(base_url, &hrefs)
}

/// The feed URLs from the `href` values `hrefs` of a page whose URL is
/// `base_url`: each resolved against it, in order.
pub fn feed_links_of(base_url: &str, hrefs: &Vec<String>) -> (feeds: Vec<String>)
    ensures
        views(feeds@) == feed_links(base_url@, views(hrefs@)),
{
    let ghost all = views(hrefs@);
    let mut feeds: Vec<String> = Vec::new();
    let mut i: usize = 0;
    assert(all.take(0) =~= Seq::<Seq<char>>::empty());
    while i < hrefs.len()
        invariant
            views(hrefs@) == all,
            i <= hrefs@.len(),
            views(feeds@) == feed_links(base_url@, all.take(i as int)),
        decreases hrefs@.len() - i,
    {
        assert(all.take(i + 1).drop_last() =~= all.take(i as int));
        assert(all.take(i + 1).last() == hrefs@[i as int]@);
        match join_url(base_url, hrefs[i].as_str()) {
            Some(r) => {
                let ghost prev = views(feeds@);
                feeds.push(r.text);
                assert(views(feeds@) =~= prev.push(parts_view(r).0));
            },
            None => {},
        }
        i = i + 1;
    }
    assert(all.take(hrefs@.len() as int) =~= all);
    feeds
}

/// `link` is the resolution of `href` against `base`, on the base's host,
/// over http or https, without a fragment.
pub open spec fn resolves_on_site(base: Seq<char>, href: Seq<char>, link: Seq<char>) -> bool {
    match joined_url(base, href) {
        Some(r) => r.0 == link && r.2 == base_host(base) && (r.1 == "http"@ || r.1 == "https"@)
            && !contains(r.0, "#"@),
        None => false,
    }
}

/// `link` is the on-site resolution of one of the `hrefs`.
pub open spec fn resolves_from(base: Seq<char>, hrefs: Seq<Seq<char>>, link: Seq<char>) -> bool {
    exists|h: int| 0 <= h < hrefs.len() && #[trigger] resolves_on_site(base, hrefs[h], link)
}

/// Same-site links are listed once each, and each is the on-site resolution
/// of one of the `href` values.
pub proof fn lemma_same_site_links(base: Seq<char>, hrefs: Seq<Seq<char>>)
    ensures
        forall|i: int, j: int|
            0 <= i < j < same_site_links(base, hrefs).len() ==> same_site_links(base, hrefs)[i]
                != same_site_links(base, hrefs)[j],
        forall|k: int|
            0 <= k < same_site_links(base, hrefs).len() ==> resolves_from(
                base,
                hrefs,
                #[trigger] same_site_links(base, hrefs)[k],
            ),
    decreases hrefs.len(),
{
    if hrefs.len() > 0 {
        let prev = same_site_links(base, hrefs.drop_last());
        lemma_same_site_links(base, hrefs.drop_last());
        let cur = same_site_links(base, hrefs);
        let last = hrefs.len() - 1;
        assert forall|k: int| 0 <= k < prev.len() implies resolves_from(base, hrefs, #[trigger] prev[k]) by {
            assert(resolves_from(base, hrefs.drop_last(), prev[k]));
            let h = choose|h: int|
                0 <= h < hrefs.drop_last().len() && #[trigger] resolves_on_site(
                    base,
                    hrefs.drop_last()[h],
                    prev[k],
                );
            assert(hrefs.drop_last()[h] == hrefs[h]);
        }
        if cur.len() > prev.len() {
            assert(cur == prev.push(cur[prev.len() as int]));
            assert(resolves_on_site(base, hrefs[last], cur[prev.len() as int]));
            assert(resolves_from(base, hrefs, cur[prev.len() as int]));
            assert forall|i: int, j: int| 0 <= i < j < cur.len() implies cur[i] != cur[j] by {
                if j == prev.len() {
                    assert(cur[i] == prev[i]);
                }
            }
        }
    }
}

} // verus!
