use forage::fetch::crawler::{CrawlResult, PageResult};
use forage::fetch::FetchError;
use forage::search::wayback::ArchiveResult;
use forage::search::SearchResult;
use forage::tools::{
    archive_report, company_slug, crawl_report, default_companies, default_company_limit, default_lead_titles,
    default_max_depth, default_max_pages, default_search_limit, default_ten, default_three, default_true,
    extract_name_from_title, helper_output_ok, lead_query, leads_from_results, leads_full, linkedin_fetch_limit,
    linkedin_results, linkedin_search_query, optional_key, person_search_query, person_search_report,
    person_username, search_path_filter, tool_error, truncate_for_batch, x_search_query, x_tool_handle,
    SOCIAL_TIMEOUT,
};

fn result(title: &str, url: &str, snippet: &str) -> SearchResult {
    SearchResult { title: title.to_string(), url: url.to_string(), snippet: snippet.to_string() }
}

#[test]
fn parameter_defaults() {
    assert_eq!(default_three(), 3);
    assert!(default_true());
    assert_eq!(default_max_pages(), 50);
    assert_eq!(default_max_depth(), 3);
    assert_eq!(default_search_limit(), 20);
    assert_eq!(default_company_limit(), 50);
    assert_eq!(default_companies(), "companies");
    assert_eq!(default_ten(), 10);
    assert_eq!(SOCIAL_TIMEOUT, 60);
}

#[test]
fn crawl_and_archive_reports() {
    let r = CrawlResult {
        domain: "ex.com".to_string(),
        pages: vec![
            PageResult { url: "https://ex.com/a".to_string(), title: Some("A".to_string()), content: "body".to_string(), status_code: 200 },
            PageResult { url: "https://ex.com/b".to_string(), title: None, content: "x".to_string(), status_code: 200 },
        ],
        discovery_method: "bfs_crawl".to_string(),
    };
    assert_eq!(
        crawl_report(&r),
        "# Crawl Results for ex.com\n\nDiscovery method: bfs_crawl\nPages found: 2\n\n---\n## A (https://ex.com/a)\n\nbody\n\n---\n## Untitled (https://ex.com/b)\n\nx\n\n"
    );
    let a = ArchiveResult {
        original_url: "a.com".to_string(),
        snapshot_url: "http://web.archive.org/x".to_string(),
        capture_date: "2020".to_string(),
        content: "old".to_string(),
    };
    assert_eq!(
        archive_report(&a),
        "# Archived Snapshot\n\nOriginal URL: a.com\nSnapshot URL: http://web.archive.org/x\nCapture Date: 2020\n\n---\n\nold"
    );
}

#[test]
fn linkedin_inputs_and_queries() {
    assert_eq!(company_slug(" https://www.linkedin.com/company/razorpay/ "), "razorpay");
    assert_eq!(company_slug("razorpay"), "razorpay");
    assert_eq!(person_username("https://linkedin.com/in/john-doe/"), "john-doe");
    assert_eq!(person_username("johndoe"), "johndoe");
    assert_eq!(person_search_query("john-doe"), "\"john doe\" LinkedIn");
    assert_eq!(search_path_filter("people"), "/in/");
    assert_eq!(search_path_filter("person"), "/in/");
    assert_eq!(search_path_filter("companies"), "/company/");
    assert_eq!(linkedin_search_query("fintech"), "fintech LinkedIn");
    assert_eq!(linkedin_fetch_limit(10), 40);
    assert_eq!(x_search_query("rust"), "site:x.com rust");
    assert_eq!(x_tool_handle("  @razorpay/ "), "razorpay");
    assert!(!helper_output_ok("{\"error\": 1}"));
    assert!(helper_output_ok("{\"name\": 1}"));
    assert_eq!(optional_key(""), None);
    assert_eq!(optional_key("k"), Some("k".to_string()));
    assert_eq!(tool_error("Search error: ", &FetchError::Timeout(5)), "Search error: Request timed out after 5s");
}

#[test]
fn person_search_keeps_profile_results() {
    let rs = vec![
        result("John Doe - CEO | LinkedIn", "https://in.linkedin.com/in/johndoe", "s"),
        result("Other", "https://x.com", "t"),
    ];
    assert_eq!(
        person_search_report(&rs),
        Some("## John Doe - CEO | LinkedIn\nURL: https://in.linkedin.com/in/johndoe\ns\n\n".to_string())
    );
    assert_eq!(person_search_report(&vec![result("Other", "https://x.com", "t")]), None);
}

#[test]
fn linkedin_search_filters_and_limits() {
    let rs = vec![
        result("A", "https://www.linkedin.com/company/a", "1"),
        result("B", "https://example.com/company/b", "2"),
        result("C", "https://www.linkedin.com/in/c", "3"),
        result("D", "https://www.linkedin.com/company/d", "4"),
    ];
    let two = linkedin_results(&rs, "/company/", 5);
    assert_eq!(two.len(), 2);
    assert_eq!(two[0].title, "A");
    assert_eq!(two[1].title, "D");
    let one = linkedin_results(&rs, "/company/", 1);
    assert_eq!(one.len(), 1);
    let people = linkedin_results(&rs, "/in/", 5);
    assert_eq!(people.len(), 1);
    assert_eq!(people[0].title, "C");
}

#[test]
fn batch_content_is_cut_at_5000_bytes() {
    assert_eq!(truncate_for_batch("short"), "short");
    let exact = "a".repeat(5000);
    assert_eq!(truncate_for_batch(&exact), exact);
    let long = "a".repeat(6000);
    assert_eq!(
        truncate_for_batch(&long),
        format!("{}...\n\n[Truncated, 6000 total chars. Use fetch_url for full content.]", "a".repeat(5000))
    );
    let wide = format!("{}{}", "a".repeat(4998), "é".repeat(10));
    assert_eq!(
        truncate_for_batch(&wide),
        format!("{}é...\n\n[Truncated, 5018 total chars. Use fetch_url for full content.]", "a".repeat(4998))
    );
}

#[test]
fn batch_cut_backs_off_to_char_boundary() {
    // Byte 5000 falls inside the two-byte 'é' that starts at byte 4999.
    let odd = format!("{}{}", "a".repeat(4999), "é".repeat(3));
    assert_eq!(
        truncate_for_batch(&odd),
        format!("{}...\n\n[Truncated, 5005 total chars. Use fetch_url for full content.]", "a".repeat(4999))
    );
}

#[test]
fn lead_search() {
    let titles = default_lead_titles();
    assert_eq!(titles.len(), 8);
    assert_eq!(titles[0], "CEO");
    assert_eq!(titles[7], "COO");
    assert_eq!(lead_query("Acme", "CTO"), "Acme CTO LinkedIn");
    assert_eq!(extract_name_from_title("Jane Doe - CTO | LinkedIn"), "Jane Doe");
    assert_eq!(extract_name_from_title("Jane Doe | LinkedIn"), "Jane Doe");
    assert_eq!(extract_name_from_title(" Jane "), "Jane");
    let rs = vec![
        result("Jane Doe - CTO - Acme | LinkedIn", "https://linkedin.com/in/jane", "s1"),
        result("News", "https://news.com", "s2"),
        result("Bob Roe - CTO | LinkedIn", "https://linkedin.com/in/bob", "s3"),
    ];
    let leads = leads_from_results("Acme", "CTO", &rs, 1);
    assert_eq!(leads.len(), 1);
    assert_eq!(leads[0].name, "Jane Doe");
    assert_eq!(leads[0].title_searched, "CTO");
    assert_eq!(leads[0].headline, "Jane Doe - CTO - Acme | LinkedIn");
    assert_eq!(leads[0].linkedin_url, "https://linkedin.com/in/jane");
    assert_eq!(leads[0].snippet, "s1");
    assert_eq!(leads[0].company, "Acme");
    assert_eq!(leads_from_results("Acme", "CTO", &rs, 5).len(), 2);
    assert!(leads_full(3, 1, 3));
    assert!(!leads_full(2, 1, 3));
}
