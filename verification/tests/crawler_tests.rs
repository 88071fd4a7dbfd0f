use forage::fetch::crawler::{
    allowed_urls, base_text, child_sitemap_urls, crawl_base, crawl_pages, crawl_targets, extract_title_from_markdown, feed_urls, homepage_only,
    read_sitemap, robots_from, take_urls, url_with_path, BfsCrawl, BfsStep, SitemapFetch,
};

#[test]
fn test_extract_title() {
    assert_eq!(
        extract_title_from_markdown("# My Title\n\nSome content"),
        Some("My Title".to_string())
    );
    assert_eq!(
        extract_title_from_markdown("No title here"),
        None
    );
}

#[test]
fn title_from_indented_heading() {
    assert_eq!(extract_title_from_markdown("intro\n   #   Spaced  \n# Second"), Some("Spaced".to_string()));
    assert_eq!(extract_title_from_markdown("## Sub only"), None);
}

fn strings(v: &[&str]) -> Vec<String> {
    v.iter().map(|s| s.to_string()).collect()
}

#[test]
fn link_crawl_is_breadth_first() {
    let home = r#"<a href="/a">A</a><a href="/b">B</a><a href="https://other.com/x">X</a>"#;
    let mut crawl = BfsCrawl::start("https://ex.com/", home, 10, 3);
    match crawl.step() {
        BfsStep::Visit { url, depth, fetch } => {
            assert_eq!(url, "https://ex.com/a");
            assert_eq!(depth, 1);
            assert!(fetch);
        }
        BfsStep::Done => panic!("expected a visit"),
    }
    crawl.add_links(r#"<a href="/c">C</a><a href="/b">B again</a>"#);
    match crawl.step() {
        BfsStep::Visit { url, depth, .. } => {
            assert_eq!(url, "https://ex.com/b");
            assert_eq!(depth, 1);
        }
        BfsStep::Done => panic!("expected a visit"),
    }
    crawl.add_links("<p>no links</p>");
    match crawl.step() {
        BfsStep::Visit { url, depth, .. } => {
            assert_eq!(url, "https://ex.com/c");
            assert_eq!(depth, 2);
        }
        BfsStep::Done => panic!("expected a visit"),
    }
    assert!(matches!(crawl.step(), BfsStep::Done));
    assert_eq!(
        crawl.finish(),
        strings(&["https://ex.com", "https://ex.com/a", "https://ex.com/b", "https://ex.com/c"])
    );
}

#[test]
fn link_crawl_stops_at_page_limit_and_depth_limit() {
    let home = r#"<a href="/a">A</a><a href="/b">B</a>"#;
    let mut crawl = BfsCrawl::start("https://ex.com", home, 3, 1);
    assert!(matches!(crawl.step(), BfsStep::Visit { depth: 1, fetch: false, .. }));
    // At the depth limit the page's links are not followed.
    crawl.add_links(r#"<a href="/deep">D</a>"#);
    assert!(matches!(crawl.step(), BfsStep::Visit { depth: 1, .. }));
    assert!(matches!(crawl.step(), BfsStep::Done));
    assert_eq!(crawl.finish(), strings(&["https://ex.com", "https://ex.com/a", "https://ex.com/b"]));
}

#[test]
fn link_crawl_keeps_home_page_even_with_zero_limit() {
    let mut crawl = BfsCrawl::start("https://ex.com", r#"<a href="/a">A</a>"#, 0, 3);
    assert!(matches!(crawl.step(), BfsStep::Done));
    assert_eq!(crawl.finish(), strings(&["https://ex.com"]));
}

fn fetched(status: u16, content: &str) -> Result<forage::fetch::FetchResult, forage::fetch::FetchError> {
    Ok(forage::fetch::FetchResult {
        url: "https://ex.com/x".to_string(),
        status_code: status,
        content: content.to_string(),
        method: "direct".to_string(),
    })
}

#[test]
fn crawl_start_and_paths() {
    let base = crawl_base("example.com").ok().unwrap();
    assert_eq!(base.text, "https://example.com/");
    assert_eq!(base_text(&base), "https://example.com");
    let b2 = crawl_base("http://example.com/blog").ok().unwrap();
    assert_eq!(b2.scheme, "http");
    assert_eq!(url_with_path("https://example.com", "/robots.txt"), "https://example.com/robots.txt");
    assert!(matches!(crawl_base("https://"), Err(forage::fetch::FetchError::UrlError(_))));
}

#[test]
fn robots_and_sitemaps_from_fetches() {
    let info = robots_from(&fetched(200, "User-agent: *\nDisallow: /admin\nSitemap: https://ex.com/s.xml"));
    assert_eq!(info.disallowed, vec!["/admin".to_string()]);
    assert_eq!(info.sitemaps, vec!["https://ex.com/s.xml".to_string()]);
    assert!(robots_from(&fetched(404, "Disallow: /x")).disallowed.is_empty());

    let set = "<urlset><url><loc> https://ex.com/a </loc></url><url><loc>https://ex.com/b</loc></url></urlset>";
    match read_sitemap(&fetched(200, set)) {
        SitemapFetch::Pages(v) => assert_eq!(v, vec!["https://ex.com/a".to_string(), "https://ex.com/b".to_string()]),
        _ => panic!("expected pages"),
    }
    let index = "<sitemapindex><sitemap><loc>https://ex.com/s1.xml</loc></sitemap></sitemapindex>";
    assert!(matches!(read_sitemap(&fetched(200, index)), SitemapFetch::Index(_)));
    assert!(matches!(read_sitemap(&fetched(500, set)), SitemapFetch::Missing));
    assert_eq!(child_sitemap_urls(&fetched(200, set)).len(), 2);
    assert!(child_sitemap_urls(&fetched(404, set)).is_empty());

    let feed = "<rss><channel><link>https://ex.com</link><item><link>https://ex.com/a</link></item>\
                <item><title>t</title><link>\n  https://ex.com/b  \n</link></item></channel></rss>";
    assert_eq!(
        feed_urls(&fetched(200, feed), true, 10),
        Some(vec!["https://ex.com/a".to_string(), "https://ex.com/b".to_string()])
    );
    assert_eq!(feed_urls(&fetched(200, feed), true, 1), Some(vec!["https://ex.com/a".to_string()]));
    assert_eq!(feed_urls(&fetched(404, feed), true, 10), None);
    // A sitemap lists no feed items.
    assert_eq!(feed_urls(&fetched(200, set), true, 10), None);
    assert_eq!(feed_urls(&fetched(200, set), false, 10), None);
}

#[test]
fn atom_entries_give_their_first_link() {
    let atom = r#"<feed xmlns="http://www.w3.org/2005/Atom"><link href="https://ex.com/"/>
        <entry><title>One</title><link href="https://ex.com/one"/><link rel="edit" href="https://ex.com/edit/1"/></entry>
        <entry><link rel="alternate" href="https://ex.com/two?a=1&amp;b=2"></link></entry></feed>"#;
    assert_eq!(
        feed_urls(&fetched(200, atom), true, 10),
        Some(vec!["https://ex.com/one".to_string(), "https://ex.com/two?a=1&b=2".to_string()])
    );
}

#[test]
fn allowed_urls_respect_robots_and_limit() {
    let urls = strings(&["https://ex.com/a", "https://ex.com/admin/x", "not a url", "https://ex.com/b", "https://ex.com/c"]);
    let rules = strings(&["/admin"]);
    assert_eq!(allowed_urls(&urls, &rules, 10), strings(&["https://ex.com/a", "https://ex.com/b", "https://ex.com/c"]));
    assert_eq!(allowed_urls(&urls, &rules, 2), strings(&["https://ex.com/a", "https://ex.com/b"]));
    assert_eq!(take_urls(&urls, 2), strings(&["https://ex.com/a", "https://ex.com/admin/x"]));
    let home = forage::fetch::FetchResult {
        url: "https://ex.com".to_string(),
        status_code: 200,
        content: "# Home\ntext".to_string(),
        method: "jina".to_string(),
    };
    let c = homepage_only("ex.com", home);
    assert_eq!(c.discovery_method, "homepage_only");
    assert_eq!(c.pages.len(), 1);
    assert_eq!(c.pages[0].title, Some("Home".to_string()));
}

#[test]
fn crawl_keeps_fetched_pages_in_order() {
    let urls = vec!["https://ex.com/a".to_string(), "https://ex.com/b".to_string(), "https://ex.com/c".to_string()];
    let ok = |content: &str| Some(forage::fetch::FetchResult {
        url: "ignored".to_string(),
        status_code: 200,
        content: content.to_string(),
        method: "direct".to_string(),
    });
    let r = crawl_pages("ex.com", &urls, vec![ok("# A\nbody"), None, ok("plain")], "sitemap:/sitemap.xml");
    assert_eq!(r.domain, "ex.com");
    assert_eq!(r.discovery_method, "sitemap:/sitemap.xml");
    assert_eq!(r.pages.len(), 2);
    assert_eq!(r.pages[0].url, "https://ex.com/a");
    assert_eq!(r.pages[0].title, Some("A".to_string()));
    assert_eq!(r.pages[1].url, "https://ex.com/c");
    assert_eq!(r.pages[1].title, None);
    assert_eq!(r.pages[1].content, "plain");
}

#[test]
fn crawl_targets_follow_robots_and_limit() {
    assert_eq!(crawl_targets(&Vec::new(), &Vec::new(), 10), None);
    let found = vec![
        "https://ex.com/a".to_string(),
        "https://ex.com/private/x".to_string(),
        "https://ex.com/b".to_string(),
        "https://ex.com/c".to_string(),
    ];
    let rules = vec!["/private".to_string()];
    assert_eq!(
        crawl_targets(&found, &rules, 2),
        Some(vec!["https://ex.com/a".to_string(), "https://ex.com/b".to_string()])
    );
    assert_eq!(crawl_targets(&found, &rules, 0), Some(Vec::new()));
}
