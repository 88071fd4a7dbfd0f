use forage::fetch::direct::{direct_result, html_to_markdown};
use forage::fetch::jina::{jina_auth_header, jina_result, jina_status_error, jina_url};
use forage::fetch::{fallback_after_direct, fallback_after_reader, FallbackStep, FetchError, FetchResult};

#[test]
fn test_html_to_markdown_basic() {
    let html = "<html><body><h1>Title</h1><p>Hello world</p></body></html>";
    let md = html_to_markdown(html);
    assert!(md.contains("Title"));
    assert!(md.contains("Hello world"));
}

#[test]
fn test_html_to_markdown_with_links() {
    let html = r#"<html><body><a href="https://example.com">Click here</a></body></html>"#;
    let md = html_to_markdown(html);
    assert!(md.contains("Click here"));
    assert!(md.contains("https://example.com"));
}

#[test]
fn direct_result_converts_only_html() {
    let r = direct_result("https://e.com", 200, "  <!DOCTYPE html><html><body><h1>Hi</h1></body></html>".to_string());
    assert_eq!(r.method, "direct");
    assert!(r.content.contains("Hi"));
    assert!(!r.content.contains("<h1>"));
    let r = direct_result("https://e.com/x.json", 404, "{\"a\": 1}".to_string());
    assert_eq!(r.content, "{\"a\": 1}");
    assert_eq!(r.status_code, 404);
}

fn page(status: u16) -> FetchResult {
    FetchResult { url: "u".into(), status_code: status, content: "c".into(), method: "direct".into() }
}

#[test]
fn fallback_decisions() {
    assert!(matches!(fallback_after_direct(Ok(page(200))), FallbackStep::Done(Ok(_))));
    assert!(matches!(fallback_after_direct(Ok(page(404))), FallbackStep::Done(Ok(_))));
    assert!(matches!(fallback_after_direct(Ok(page(403))), FallbackStep::TryReader));
    assert!(matches!(fallback_after_direct(Ok(page(503))), FallbackStep::TryReader));
    assert!(matches!(fallback_after_direct(Err(FetchError::Timeout(3))), FallbackStep::TryReader));
    assert!(matches!(fallback_after_reader(Err(FetchError::Timeout(3))), Err(FetchError::Blocked(403))));
    assert!(matches!(fallback_after_reader(Ok(page(200))), Ok(_)));
}

#[test]
fn error_messages() {
    assert_eq!(FetchError::Timeout(30).message(), "Request timed out after 30s");
    assert_eq!(FetchError::Blocked(403).message(), "Blocked by site protection (status 403)");
    assert_eq!(FetchError::HttpError("boom".into()).message(), "HTTP request failed: boom");
    assert_eq!(FetchError::UrlError("bad".into()).message(), "URL parse error: bad");
    assert_eq!(FetchError::ExtractionError("x".into()).message(), "Content extraction failed: x");
}

#[test]
fn reader_requests_and_answers() {
    assert_eq!(jina_url("https://example.com"), "https://r.jina.ai/https://example.com");
    assert_eq!(jina_auth_header(Some("k1")), Some("Bearer k1".to_string()));
    assert_eq!(jina_auth_header(Some("")), None);
    assert_eq!(jina_auth_header(None), None);
    assert!(matches!(jina_status_error(402), Some(FetchError::HttpError(_))));
    assert!(jina_status_error(500).is_none());
    match jina_result("https://e.com", 500, "x".into()) {
        Err(FetchError::HttpError(m)) => assert_eq!(m, "Jina returned status 500"),
        _ => panic!("expected an error"),
    }
    let ok = jina_result("https://e.com", 200, "# md".into()).unwrap();
    assert_eq!(ok.method, "jina");
    assert_eq!(ok.content, "# md");
}
