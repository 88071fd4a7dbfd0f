//! Web search through DuckDuckGo's lite page: the form a search posts, and the
//! results read from the page it answers with.
use vstd::prelude::*;
use crate::fetch::FetchError;
use crate::search::{result_view, results_view, SearchResult};
use crate::social::opt_view;
use crate::text::{
    append, chars_of, contains, contains_str, eq_str, or_empty, string_of, trim, trim_of, views,
};
use crate::weburl::{percent_encoded, url_encode};

verus! {

/// The form body of a search for `query`.
pub fn ddg_form_body(query: &str) -> (b: String)
    ensures
        b@ == "q="@ + percent_encoded(query@),
{
    let mut v = chars_of("q=");
    append(&mut v, chars_of(url_encode(query).as_str()).as_slice());
    string_of(v.as_slice())
}

/// The text and `href` of each `a.result-link` element of a results page, in
/// document order, as `scraper` reads them.
pub uninterp spec fn ddg_result_links(html: Seq<char>) -> Seq<(Seq<char>, Option<Seq<char>>)>;

/// The text of each `td.result-snippet` element of a results page, in
/// document order, as `scraper` reads them.
pub uninterp spec fn ddg_snippet_texts(html: Seq<char>) -> Seq<Seq<char>>;

/// The view of a result link: its text and `href`.
pub open spec fn link_view(l: (String, Option<String>)) -> (Seq<char>, Option<Seq<char>>) {
    (l.0@, opt_view(l.1))
}

/// The views of result links.
pub open spec fn link_views(ls: Seq<(String, Option<String>)>) -> Seq<(Seq<char>, Option<Seq<char>>)> {
    ls.map_values(|l: (String, Option<String>)| link_view(l))
}

/// `scraper`: parses `html` and collects the text and `href` of each
/// `a.result-link` element.
#[verifier::external_body]
fn select_result_links(html: &str) -> (links: Vec<(String, Option<String>)>)
    ensures
        link_views(links@) == ddg_result_links(html@),
{
    let document = scraper::Html::parse_document(html);
    let selector = scraper::Selector::parse("a.result-link").unwrap();
    document.select(&selector).map(
        |e| (e.text().collect::<String>(), e.value().attr("href").map(String::from)),
    ).collect()
}

/// `scraper`: parses `html` and collects the text of each `td.result-snippet`
/// element.
#[verifier::external_body]
fn select_result_snippets(html: &str) -> (snippets: Vec<String>)
    ensures
        views(snippets@) == ddg_snippet_texts(html@),
{
    let document = scraper::Html::parse_document(html);
    let selector = scraper::Selector::parse("td.result-snippet").unwrap();
    document.select(&selector).map(|e| e.text().collect::<String>()).collect()
}

/// The result a link gives, with the snippet in the same position: none for
/// an ad (a `duckduckgo.com/y.js` link), a link without URL or title, or the
/// "more info" link; else the trimmed title, the URL and the trimmed snippet.
pub open spec fn ddg_entry(link: (Seq<char>, Option<Seq<char>>), snippet: Option<Seq<char>>) -> Option<
    (Seq<char>, Seq<char>, Seq<char>),
> {
    let title = trim(link.0);
    let url = or_empty(link.1);
    if contains(url, "duckduckgo.com/y.js"@) || url.len() == 0 || title.len() == 0 || title
        == "more info"@ {
        None
    } else {
        Some((title, url, trim(or_empty(snippet))))
    }
}

/// The results of the links `links` and snippets `snippets`: the entries of
/// the links in order, the `i`-th link with the `i`-th snippet, until `limit`
/// are found.
pub open spec fn ddg_results(
    links: Seq<(Seq<char>, Option<Seq<char>>)>,
    snippets: Seq<Seq<char>>,
    limit: int,
) -> Seq<(Seq<char>, Seq<char>, Seq<char>)>
    decreases links.len(),
{
    if links.len() == 0 {
        Seq::empty()
    } else {
        let prev = ddg_results(links.drop_last(), snippets, limit);
        let i = links.len() - 1;
        if prev.len() >= limit {
            prev
        } else {
            match ddg_entry(
                links.last(),
                if i < snippets.len() {
                    Some(snippets[i])
                } else {
                    None
                },
            ) {
                Some(e) => prev.push(e),
                None => prev,
            }
        }
    }
}

/// The result `e` is the `i`-th link of the page with the `i`-th snippet: the
/// link's trimmed text and its URL, and the trimmed snippet in the same place
/// (empty when the page has fewer snippets).
pub open spec fn result_at(
    e: (Seq<char>, Seq<char>, Seq<char>),
    links: Seq<(Seq<char>, Option<Seq<char>>)>,
    snippets: Seq<Seq<char>>,
    i: int,
) -> bool {
    &&& 0 <= i < links.len()
    &&& e.0 == trim(links[i].0)
    &&& links[i].1 == Some(e.1)
    &&& e.2 == if i < snippets.len() {
        trim(snippets[i])
    } else {
        Seq::empty()
    }
}

/// The result `e` is some link of the page with the snippet in its place.
pub open spec fn from_link_in_place(
    e: (Seq<char>, Seq<char>, Seq<char>),
    links: Seq<(Seq<char>, Option<Seq<char>>)>,
    snippets: Seq<Seq<char>>,
) -> bool {
    exists|i: int| #[trigger] result_at(e, links, snippets, i)
}

/// Each result is one link of the page with the snippet in the same place on
/// the page, however many links before it (ads, empty links, "more info") were
/// left out; no result is an ad, and there are at most `limit` results and no
/// more than links.
pub proof fn law_ddg_result_snippet_in_place(
    links: Seq<(Seq<char>, Option<Seq<char>>)>,
    snippets: Seq<Seq<char>>,
    limit: int,
)
    ensures
        ddg_results(links, snippets, limit).len() <= links.len(),
        0 <= limit ==> ddg_results(links, snippets, limit).len() <= limit,
        forall|k: int|
            0 <= k < ddg_results(links, snippets, limit).len() ==> from_link_in_place(
                #[trigger] ddg_results(links, snippets, limit)[k],
                links,
                snippets,
            ),
        forall|k: int|
            0 <= k < ddg_results(links, snippets, limit).len() ==> !contains(
                (#[trigger] ddg_results(links, snippets, limit)[k]).1,
                "duckduckgo.com/y.js"@,
            ),
    decreases links.len(),
{
    if links.len() > 0 {
        let d = links.drop_last();
        law_ddg_result_snippet_in_place(d, snippets, limit);
        let n = links.len() - 1;
        assert forall|k: int|
            0 <= k < ddg_results(links, snippets, limit).len() implies from_link_in_place(
                #[trigger] ddg_results(links, snippets, limit)[k],
                links,
                snippets,
            ) by {
            if k < ddg_results(d, snippets, limit).len() {
                assert(ddg_results(links, snippets, limit)[k] == ddg_results(d, snippets, limit)[k]);
                assert(from_link_in_place(ddg_results(d, snippets, limit)[k], d, snippets));
                let i = choose|i: int| #[trigger] result_at(ddg_results(d, snippets, limit)[k], d, snippets, i);
                assert(d[i] == links[i]);
                assert(result_at(ddg_results(links, snippets, limit)[k], links, snippets, i));
            } else {
                assert(links.last() == links[n]);
                assert(result_at(ddg_results(links, snippets, limit)[k], links, snippets, n));
            }
        }
        assert forall|k: int| 0 <= k < ddg_results(links, snippets, limit).len() implies !contains(
            (#[trigger] ddg_results(links, snippets, limit)[k]).1,
            "duckduckgo.com/y.js"@,
        ) by {
            if k < ddg_results(d, snippets, limit).len() {
                assert(ddg_results(links, snippets, limit)[k] == ddg_results(d, snippets, limit)[k]);
            }
        }
    } else {
        assert(ddg_results(links, snippets, limit).len() == 0);
    }
}

/// The results from the result links `links` and snippets `snippets` of a
/// page: at most `limit`, skipping ads, empty links and "more info".
pub fn ddg_results_of(links: &Vec<(String, Option<String>)>, snippets: &Vec<String>, limit: usize) -> (r:
    Vec<SearchResult>)
    ensures
        results_view(r@) == ddg_results(link_views(links@), views(snippets@), limit as int),
{
    let ghost all = link_views(links@);
    let ghost snips = views(snippets@);
    let mut r: Vec<SearchResult> = Vec::new();
    let mut i: usize = 0;
    assert(all.take(0) =~= Seq::<(Seq<char>, Option<Seq<char>>)>::empty());
    assert(results_view(r@) =~= Seq::<(Seq<char>, Seq<char>, Seq<char>)>::empty());
    while i < links.len()
        invariant
            all == link_views(links@),
            snips == views(snippets@),
            i <= links@.len(),
            results_view(r@) == ddg_results(all.take(i as int), snips, limit as int),
        decreases links@.len() - i,
    {
        assert(all.take(i + 1).drop_last() =~= all.take(i as int));
        assert(all.take(i + 1).last() == link_view(links@[i as int]));
        assert(all.take(i + 1).len() - 1 == i);
        if r.len() < limit {
            let tc = chars_of(links[i].0.as_str());
            let title = trim_of(tc.as_slice());
            let url = match &links[i].1 {
                Some(h) => chars_of(h.as_str()),
                None => Vec::new(),
            };
            assert(url@ == or_empty(all[i as int].1));
            if !(contains_str(url.as_slice(), "duckduckgo.com/y.js") || url.len() == 0 || title.len()
                == 0 || eq_str(title, "more info")) {
                let snippet = if i < snippets.len() {
                    let sc = chars_of(snippets[i].as_str());
                    string_of(trim_of(sc.as_slice()))
                } else {
                    String::new()
                };
                let ghost prev = results_view(r@);
                let item = SearchResult {
                    title: string_of(title),
                    url: string_of(url.as_slice()),
                    snippet,
                };
                r.push(item);
                assert(results_view(r@) =~= prev.push(result_view(item)));
            }
        }
        i = i + 1;
    }
    assert(all.take(links@.len() as int) =~= all);
    r
}

/// The results on a DuckDuckGo lite results page: at most `limit`, in page
/// order, skipping ads, empty links and "more info".
pub fn parse_ddg_lite_html(html: &str, limit: usize) -> (r: Vec<SearchResult>)
    ensures
        results_view(r@) == ddg_results(ddg_result_links(html@), ddg_snippet_texts(html@), limit as int),
{
    let links = select_result_links(html);
    let snippets = select_result_snippets(html);
    ddg_results_of(&links, &snippets, limit)
}

/// The message for a page that is a challenge instead of results.
pub open spec fn anomaly_text() -> Seq<char> {
    "DuckDuckGo returned an anomaly challenge page. Search may be rate-limited. Try again in a minute."@
}

/// The outcome of a search whose answer body is `body`: an error when the page
/// is an anomaly challenge, else its results.
pub fn search_outcome(body: &str, limit: usize) -> (r: Result<Vec<SearchResult>, FetchError>)
    ensures
        contains(body@, "anomaly"@) ==> (r matches Err(FetchError::HttpError(m)) && m@ == anomaly_text()),
        !contains(body@, "anomaly"@) ==> (r matches Ok(v) && results_view(v@) == ddg_results(
            ddg_result_links(body@),
            ddg_snippet_texts(body@),
            limit as int,
        )),
{
    let c = chars_of(body);
    if contains_str(c.as_slice(), "anomaly") {
        return Err(
            FetchError::HttpError(
                string_of(
                    chars_of(
                        "DuckDuckGo returned an anomaly challenge page. Search may be rate-limited. Try again in a minute.",
                    ).as_slice(),
                ),
            ),
        );
    }
    Ok(parse_ddg_lite_html(body, limit))
}

/// A search returns at most `limit` results, and none of them is an ad, a
/// link without URL or title, or the "more info" link.
pub proof fn lemma_ddg_results_clean(
    links: Seq<(Seq<char>, Option<Seq<char>>)>,
    snippets: Seq<Seq<char>>,
    limit: int,
)
    requires
        limit >= 0,
    ensures
        ddg_results(links, snippets, limit).len() <= limit,
        forall|k: int|
            0 <= k < ddg_results(links, snippets, limit).len() ==> {
                let e = #[trigger] ddg_results(links, snippets, limit)[k];
                &&& e.0.len() > 0
                &&& e.0 != "more info"@
                &&& e.1.len() > 0
                &&& !contains(e.1, "duckduckgo.com/y.js"@)
            },
    decreases links.len(),
{
    if links.len() > 0 {
        lemma_ddg_results_clean(links.drop_last(), snippets, limit);
        let prev = ddg_results(links.drop_last(), snippets, limit);
        let cur = ddg_results(links, snippets, limit);
        if cur.len() > prev.len() {
            assert forall|k: int| 0 <= k < cur.len() implies {
                let e = #[trigger] cur[k];
                &&& e.0.len() > 0
                &&& e.0 != "more info"@
                &&& e.1.len() > 0
                &&& !contains(e.1, "duckduckgo.com/y.js"@)
            } by {
                if k < prev.len() {
                    assert(cur[k] == prev[k]);
                }
            }
        }
    }
}

} // verus!
