use forage::fetch::FetchError;
use forage::search::duckduckgo::{ddg_form_body, parse_ddg_lite_html, search_outcome};
use forage::search::wayback::{archive_result, availability_parse_error, availability_url, closest_snapshot, Snapshot};

#[test]
fn test_parse_ddg_lite_html() {
    let html = r##"<html><body>
            <table>
                <tr>
                    <td>
                        <a rel="nofollow" href="https://example.com/page1" class='result-link'>Example Page 1</a>
                    </td>
                </tr>
                <tr>
                    <td class='result-snippet'>This is the first result snippet.</td>
                </tr>
                <tr>
                    <td>
                        <a rel="nofollow" href="https://example.com/page2" class='result-link'>Example Page 2</a>
                    </td>
                </tr>
                <tr>
                    <td class='result-snippet'>Second result snippet here.</td>
                </tr>
                <tr>
                    <td>
                        <a rel="nofollow" href="https://duckduckgo.com/y.js?ad_domain=spam.com" class='result-link'>Sponsored Ad</a>
                    </td>
                </tr>
            </table>
        </body></html>"##;

    let results = parse_ddg_lite_html(html, 10);
    assert_eq!(results.len(), 2);
    assert_eq!(results[0].title, "Example Page 1");
    assert_eq!(results[0].url, "https://example.com/page1");
    assert_eq!(results[0].snippet, "This is the first result snippet.");
    assert_eq!(results[1].title, "Example Page 2");
}

#[test]
fn ddg_results_stop_at_limit_and_skip_more_info() {
    let html = r#"<table>
        <tr><td><a class="result-link" href="https://a.com">  A  </a></td></tr>
        <tr><td><a class="result-link" href="https://ads.example">more info</a></td></tr>
        <tr><td><a class="result-link" href="">Empty</a></td></tr>
        <tr><td><a class="result-link" href="https://b.com">B</a></td></tr>
        <tr><td class="result-snippet">  first  </td></tr>
    </table>"#;
    let all = parse_ddg_lite_html(html, 10);
    assert_eq!(all.len(), 2);
    assert_eq!(all[0].title, "A");
    assert_eq!(all[0].snippet, "first");
    assert_eq!(all[1].url, "https://b.com");
    assert_eq!(all[1].snippet, "");
    let one = parse_ddg_lite_html(html, 1);
    assert_eq!(one.len(), 1);
    assert_eq!(parse_ddg_lite_html(html, 0).len(), 0);
}

#[test]
fn ddg_form_body_percent_encodes_query() {
    assert_eq!(ddg_form_body("rust lang"), "q=rust%20lang");
    assert_eq!(ddg_form_body("é&x-y_z.~"), "q=%C3%A9%26x-y_z.~");
}

#[test]
fn anomaly_page_is_an_error() {
    match search_outcome("<html>anomaly detected</html>", 5) {
        Err(FetchError::HttpError(m)) => assert_eq!(
            m,
            "DuckDuckGo returned an anomaly challenge page. Search may be rate-limited. Try again in a minute."
        ),
        _ => panic!("expected an error"),
    }
    match search_outcome("<a class='result-link' href='https://a.com'>A</a>", 5) {
        Ok(r) => assert_eq!(r.len(), 1),
        Err(_) => panic!("expected results"),
    }
}

#[test]
fn wayback_query_and_snapshot() {
    assert_eq!(
        availability_url("https://a.com/x?y=1", Some("20200101")),
        "https://archive.org/wayback/available?url=https%3A%2F%2Fa.com%2Fx%3Fy%3D1&timestamp=20200101"
    );
    assert_eq!(
        availability_url("a.com", None),
        "https://archive.org/wayback/available?url=a.com&timestamp="
    );
    match closest_snapshot("a.com", None) {
        Err(FetchError::HttpError(m)) => assert_eq!(m, "No archived snapshot found for a.com"),
        _ => panic!("expected an error"),
    }
    let snap = Snapshot {
        url: "http://web.archive.org/web/2020/a.com".to_string(),
        timestamp: "20200101000000".to_string(),
        status: "200".to_string(),
    };
    let got = closest_snapshot("a.com", Some(snap.clone())).ok().unwrap();
    assert_eq!(got.url, snap.url);
    let a = archive_result("a.com", got, "content".to_string());
    assert_eq!(a.original_url, "a.com");
    assert_eq!(a.capture_date, "20200101000000");
    assert_eq!(a.content, "content");
    match availability_parse_error("bad json") {
        FetchError::HttpError(m) => assert_eq!(m, "Failed to parse Wayback API response: bad json"),
        _ => panic!("expected an HTTP error"),
    }
}
