//! Direct fetches: turning a fetched body into markdown.
use vstd::prelude::*;
use crate::fetch::FetchResult;
use crate::text::{chars_of, join, join_strings, starts_with, starts_with_str, string_of, trim_start, trim_start_of, views};

verus! {

broadcast use vstd::string::group_string_axioms;

/// The markdown `htmd` makes of an HTML document, or `None` when it reports an
/// error.
pub uninterp spec fn htmd_markdown(html: Seq<char>) -> Option<Seq<char>>;

/// The text nodes of an HTML document as `scraper` parses it, in document order.
pub uninterp spec fn document_text_nodes(html: Seq<char>) -> Seq<Seq<char>>;

/// `htmd::convert`: the markdown for an HTML document, or `None` on its error.
#[verifier::external_body]
fn htmd_convert(html: &str) -> (md: Option<String>)
    ensures
        match md {
            Some(m) => htmd_markdown(html@) == Some(m@),
            None => htmd_markdown(html@) is None,
        },
{
    match htmd::convert(html) {
        Ok(m) => Some(m),
        Err(_) => None,
    }
}

/// `scraper::Html::parse_document` followed by the text of the root element: the
/// document's text nodes in order.
#[verifier::external_body]
fn text_nodes(html: &str) -> (t: Vec<String>)
    ensures
        views(t@) == document_text_nodes(html@),
{
    let doc = scraper::Html::parse_document(html);
    doc.root_element().text().map(|s| s.to_string()).collect()
}

/// The markdown for an HTML document: `htmd`'s conversion, or, if that fails, the
/// document's text nodes joined by spaces.
pub open spec fn markdown_of(html: Seq<char>) -> Seq<char> {
    match htmd_markdown(html) {
        Some(m) => m,
        None => join(document_text_nodes(html), " "@),
    }
}

/// Converts HTML to markdown.
pub fn html_to_markdown(html: &str) -> (md: String)
    ensures
        md@ == markdown_of(html@),
{
    match htmd_convert(html) {
        Some(m) => m,
        None => {
            let nodes = text_nodes(html);
            string_of(join_strings(&nodes, " ").as_slice())
        },
    }
}

/// A body is treated as HTML when, after leading whitespace, it starts with `<!`
/// or `<html`.
pub open spec fn looks_like_html(body: Seq<char>) -> bool {
    starts_with(trim_start(body), "<!"@) || starts_with(trim_start(body), "<html"@)
}

/// The content kept of a directly fetched body: markdown for HTML, the body as it
/// is otherwise.
pub open spec fn direct_content(body: Seq<char>) -> Seq<char> {
    if looks_like_html(body) {
        markdown_of(body)
    } else {
        body
    }
}

/// The result of a direct fetch of `url` that answered `status` with `body`.
pub fn direct_result(url: &str, status: u16, body: String) -> (r: FetchResult)
    ensures
        r.url@ == url@,
        r.status_code == status,
        r.content@ == direct_content(body@),
        r.method@ == "direct"@,
{
    let c = chars_of(body.as_str());
    let t = trim_start_of(c.as_slice());
    let content = if starts_with_str(t, "<!") || starts_with_str(t, "<html") {
        html_to_markdown(body.as_str())
    } else {
        body
    };
    FetchResult { url: url.to_string(), status_code: status, content, method: "direct".to_string() }
}

} // verus!
