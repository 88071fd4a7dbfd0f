use forage::fetch::discovery::{discovery_step, DiscoveryAction, DiscoveryEvent, DiscoveryStage};
use forage::fetch::sitemap::RobotsInfo;
use forage::fetch::{FetchError, FetchResult};

fn robots(sitemaps: &[&str]) -> RobotsInfo {
    RobotsInfo {
        sitemaps: sitemaps.iter().map(|s| s.to_string()).collect(),
        disallowed: Vec::new(),
        crawl_delay: None,
    }
}

fn answer(status: u16, body: &str) -> DiscoveryEvent {
    DiscoveryEvent::Fetched(Ok(FetchResult {
        url: String::new(),
        status_code: status,
        content: body.to_string(),
        method: "direct".to_string(),
    }))
}

fn fetch_url(action: &DiscoveryAction) -> String {
    match action {
        DiscoveryAction::Fetch(u) => u.clone(),
        _ => panic!("expected a fetch"),
    }
}

fn finished(action: &DiscoveryAction) -> (Vec<String>, String) {
    match action {
        DiscoveryAction::Finish(urls, label) => (urls.clone(), label.clone()),
        _ => panic!("expected the end of the discovery"),
    }
}

const URLSET: &str = "<urlset><url><loc>https://ex.com/a</loc></url><url><loc>https://ex.com/b</loc></url></urlset>";

#[test]
fn discovery_asks_robots_sitemaps_first() {
    let r = robots(&["https://ex.com/custom.xml"]);
    let (stage, action) = discovery_step(DiscoveryStage::Start, &r, "https://ex.com/", DiscoveryEvent::Begin, 10);
    assert_eq!(fetch_url(&action), "https://ex.com/custom.xml");
    let (_, action) = discovery_step(stage, &r, "https://ex.com/", answer(200, URLSET), 10);
    let (urls, label) = finished(&action);
    assert_eq!(urls, vec!["https://ex.com/a".to_string(), "https://ex.com/b".to_string()]);
    assert_eq!(label, "robots_sitemap");
}

#[test]
fn discovery_tries_standard_sitemaps_in_order() {
    let r = robots(&[]);
    let (stage, action) = discovery_step(DiscoveryStage::Start, &r, "https://ex.com/", DiscoveryEvent::Begin, 10);
    assert_eq!(fetch_url(&action), "https://ex.com/sitemap.xml");
    let (stage, action) = discovery_step(stage, &r, "https://ex.com/", answer(404, ""), 10);
    assert_eq!(fetch_url(&action), "https://ex.com/sitemap_index.xml");
    let (_, action) = discovery_step(stage, &r, "https://ex.com/", answer(200, URLSET), 1);
    let (urls, label) = finished(&action);
    assert_eq!(urls, vec!["https://ex.com/a".to_string()]);
    assert_eq!(label, "sitemap:/sitemap_index.xml");
}

#[test]
fn discovery_reads_children_of_sitemap_index() {
    let r = robots(&[]);
    let index = "<sitemapindex><sitemap><loc>https://ex.com/s1.xml</loc></sitemap>\
                 <sitemap><loc>https://ex.com/s2.xml</loc></sitemap></sitemapindex>";
    let (stage, _) = discovery_step(DiscoveryStage::Start, &r, "https://ex.com", DiscoveryEvent::Begin, 2);
    let (stage, action) = discovery_step(stage, &r, "https://ex.com", answer(200, index), 2);
    assert_eq!(fetch_url(&action), "https://ex.com/s1.xml");
    // The first child already gives the two pages asked for: the second is never fetched.
    let (_, action) = discovery_step(stage, &r, "https://ex.com", answer(200, URLSET), 2);
    let (urls, label) = finished(&action);
    assert_eq!(urls.len(), 2);
    assert_eq!(label, "sitemap:/sitemap.xml");
}

#[test]
fn discovery_falls_back_to_feed_paths() {
    let r = robots(&[]);
    let mut stage = DiscoveryStage::Start;
    let mut event = DiscoveryEvent::Begin;
    let mut asked = Vec::new();
    for _ in 0..5 {
        let (s, action) = discovery_step(stage, &r, "https://ex.com", event, 10);
        asked.push(fetch_url(&action));
        stage = s;
        event = DiscoveryEvent::Fetched(Err(FetchError::Timeout(30)));
    }
    assert_eq!(asked[4], "https://ex.com/wp-sitemap.xml");
    let (stage, action) = discovery_step(stage, &r, "https://ex.com", event, 10);
    assert_eq!(fetch_url(&action), "https://ex.com/feed");
    // A feed without items is passed over.
    let (stage, action) = discovery_step(stage, &r, "https://ex.com", answer(200, "<rss></rss>"), 10);
    assert_eq!(fetch_url(&action), "https://ex.com/rss");
    let feed = "<rss><channel><item><link>https://ex.com/post</link></item></channel></rss>";
    let (_, action) = discovery_step(stage, &r, "https://ex.com", answer(200, feed), 10);
    let (urls, label) = finished(&action);
    assert_eq!(urls, vec!["https://ex.com/post".to_string()]);
    assert_eq!(label, "rss:/rss");
}

#[test]
fn discovery_ends_with_link_crawl() {
    let r = robots(&[]);
    let (_, action) = discovery_step(DiscoveryStage::Crawl, &r, "https://ex.com", DiscoveryEvent::Crawled(vec!["https://ex.com".to_string()]), 10);
    let (urls, label) = finished(&action);
    assert_eq!(urls, vec!["https://ex.com".to_string()]);
    assert_eq!(label, "bfs_crawl");
    let (_, action) = discovery_step(DiscoveryStage::Crawl, &r, "https://ex.com", DiscoveryEvent::Crawled(Vec::new()), 10);
    let (urls, label) = finished(&action);
    assert!(urls.is_empty());
    assert_eq!(label, "none");
}

#[test]
fn discovery_home_page_without_feeds_goes_to_link_crawl() {
    let r = robots(&[]);
    let html = "<html><body><a href=\"/a\">a</a></body></html>";
    let (stage, action) = discovery_step(DiscoveryStage::Home, &r, "https://ex.com", answer(200, html), 10);
    match action {
        DiscoveryAction::LinkCrawl(h) => assert_eq!(h, html),
        _ => panic!("expected the link crawl"),
    }
    assert!(matches!(stage, DiscoveryStage::Crawl));
    let (_, action) = discovery_step(DiscoveryStage::Home, &r, "https://ex.com", answer(500, ""), 10);
    assert_eq!(finished(&action).1, "none");
}

#[test]
fn discovery_reads_pages_from_rss_feed() {
    let r = robots(&[]);
    let mut stage = DiscoveryStage::Start;
    let mut event = DiscoveryEvent::Begin;
    for _ in 0..6 {
        let (s, _) = discovery_step(stage, &r, "https://ex.com", event, 10);
        stage = s;
        event = answer(404, "");
    }
    let feed = "<rss><channel><item><link>https://ex.com/a</link></item></channel></rss>";
    let (_, action) = discovery_step(stage, &r, "https://ex.com", answer(200, feed), 10);
    let (urls, label) = finished(&action);
    assert_eq!(urls, vec!["https://ex.com/a".to_string()]);
    assert_eq!(label, "rss:/feed");
}

#[test]
fn discovery_reads_feed_linked_from_home_page() {
    let r = robots(&[]);
    let html = r#"<html><head><link rel="alternate" type="application/atom+xml" href="/atom"></head></html>"#;
    let (stage, action) = discovery_step(DiscoveryStage::Home, &r, "https://ex.com", answer(200, html), 10);
    assert_eq!(fetch_url(&action), "https://ex.com/atom");
    let atom = r#"<feed><entry><link href="https://ex.com/p"/></entry></feed>"#;
    let (_, action) = discovery_step(stage, &r, "https://ex.com", answer(200, atom), 10);
    let (urls, label) = finished(&action);
    assert_eq!(urls, vec!["https://ex.com/p".to_string()]);
    assert_eq!(label, "rss:html_link");
}
