use forage::fetch::sitemap::{is_allowed, is_sitemap_index, parse_robots_txt, rss_paths, sitemap_paths};

#[test]
fn test_parse_robots_txt() {
    let robots = "User-agent: *\nDisallow: /admin\nDisallow: /private/\nCrawl-delay: 5\n\nSitemap: https://example.com/sitemap.xml\nSitemap: https://example.com/sitemap2.xml\n";
    let info = parse_robots_txt(robots, "*");
    assert_eq!(info.sitemaps.len(), 2);
    assert_eq!(info.disallowed, vec!["/admin", "/private/"]);
    assert_eq!(info.crawl_delay, Some(5));
}

#[test]
fn test_is_allowed() {
    let disallowed = vec!["/admin".to_string(), "/private/".to_string()];
    assert!(is_allowed("/public/page", &disallowed));
    assert!(!is_allowed("/admin/login", &disallowed));
    assert!(!is_allowed("/private/data", &disallowed));
}

#[test]
fn robots_rules_of_other_agents_are_ignored() {
    let robots = "User-agent: googlebot\nDisallow: /g\nCrawl-delay: 9\nUser-agent: *\nDisallow: /all\n";
    let info = parse_robots_txt(robots, "*");
    assert_eq!(info.disallowed, vec!["/all"]);
    assert_eq!(info.crawl_delay, None);
    assert!(info.sitemaps.is_empty());
}

#[test]
fn robots_keys_ignore_case_and_comments() {
    let robots = "# comment: here\r\nUSER-AGENT: *\r\nDISALLOW: /x\r\ncrawl-DELAY: +12\r\nno colon line\r\nSiteMap:   https://e.com/s.xml  \r\nDisallow:\r\n";
    let info = parse_robots_txt(robots, "*");
    assert_eq!(info.disallowed, vec!["/x"]);
    assert_eq!(info.crawl_delay, Some(12));
    assert_eq!(info.sitemaps, vec!["https://e.com/s.xml"]);
}

#[test]
fn robots_bad_crawl_delay_is_none() {
    let info = parse_robots_txt("User-agent: *\nCrawl-delay: 1.5\n", "*");
    assert_eq!(info.crawl_delay, None);
    let info = parse_robots_txt("User-agent: *\nCrawl-delay: 99999999999999999999\n", "*");
    assert_eq!(info.crawl_delay, None);
}

#[test]
fn empty_rules_allow_everything() {
    assert!(is_allowed("/anything", &[]));
    assert!(!is_allowed("/", &["".to_string()]));
}

#[test]
fn sitemap_index_is_detected() {
    assert!(is_sitemap_index("<?xml?><sitemapindex xmlns=\"x\"></sitemapindex>"));
    assert!(!is_sitemap_index("<urlset></urlset>"));
}

#[test]
fn standard_paths_in_order() {
    assert_eq!(sitemap_paths()[0], "/sitemap.xml");
    assert_eq!(sitemap_paths().len(), 5);
    assert_eq!(rss_paths(), vec!["/feed", "/rss", "/atom.xml", "/feed.xml", "/index.xml", "/rss.xml"]);
}

use forage::fetch::sitemap::{extract_links, extract_rss_links, parse_sitemap_xml};
use url::Url;

#[test]
fn test_parse_sitemap_xml() {
    let xml = r#"<?xml version="1.0" encoding="UTF-8"?>
<urlset xmlns="http://www.sitemaps.org/schemas/sitemap/0.9">
  <url><loc>https://example.com/page1</loc></url>
  <url><loc>https://example.com/page2</loc></url>
</urlset>"#;
    let urls = parse_sitemap_xml(xml);
    assert_eq!(urls, vec!["https://example.com/page1", "https://example.com/page2"]);
}

#[test]
fn test_parse_sitemap_index() {
    let xml = r#"<?xml version="1.0" encoding="UTF-8"?>
<sitemapindex xmlns="http://www.sitemaps.org/schemas/sitemap/0.9">
  <sitemap><loc>https://example.com/sitemap1.xml</loc></sitemap>
  <sitemap><loc>https://example.com/sitemap2.xml</loc></sitemap>
</sitemapindex>"#;
    assert!(is_sitemap_index(xml));
    let urls = parse_sitemap_xml(xml);
    assert_eq!(urls.len(), 2);
}

#[test]
fn sitemap_loc_text_is_trimmed_and_unescaped() {
    let xml = "<urlset><url><loc>\n  https://e.com/a?x=1&amp;y=2 \n</loc></url><url><loc>   </loc></url></urlset>";
    assert_eq!(parse_sitemap_xml(xml), vec!["https://e.com/a?x=1&y=2"]);
    assert!(parse_sitemap_xml("not xml at all").is_empty());
}

#[test]
fn test_extract_links() {
    let html = r##"<html><body>
        <a href="/page1">Page 1</a>
        <a href="https://example.com/page2">Page 2</a>
        <a href="https://other.com/external">External</a>
        <a href="#anchor">Anchor</a>
    </body></html>"##;
    let base = Url::parse("https://example.com").unwrap();
    let links = extract_links(html, base.as_str());
    assert!(links.contains(&"https://example.com/page1".to_string()));
    assert!(links.contains(&"https://example.com/page2".to_string()));
    assert!(!links.iter().any(|l| l.contains("other.com")));
    assert!(!links.iter().any(|l| l.contains("#")));
}

#[test]
fn links_are_deduplicated_in_order() {
    let html = r#"<a href="/b">b</a><a href="/a">a</a><a href="/b">b again</a><a href="mailto:x@example.com">m</a>"#;
    assert_eq!(extract_links(html, "https://example.com/"), vec!["https://example.com/b", "https://example.com/a"]);
}

#[test]
fn feed_links_are_resolved() {
    let html = r#"<head><link rel="alternate" type="application/rss+xml" href="/feed.xml"><link type="application/atom+xml" href="https://e.com/atom"><link type="text/css" href="/s.css"></head>"#;
    assert_eq!(extract_rss_links(html, "https://example.com/blog/"), vec!["https://example.com/feed.xml", "https://e.com/atom"]);
}
