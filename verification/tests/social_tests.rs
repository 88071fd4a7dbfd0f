use forage::social::linkedin::{
    extract_username, normalize_company_url, normalize_profile_url, parse_company_markdown,
    parse_profile_markdown,
};
use forage::social::x::{normalize_handle, parse_x_markdown};

#[test]
fn test_extract_username() {
    assert_eq!(extract_username("https://www.linkedin.com/in/johndoe"), "johndoe");
    assert_eq!(extract_username("https://linkedin.com/in/johndoe/"), "johndoe");
    assert_eq!(extract_username("johndoe"), "johndoe");
}

#[test]
fn test_normalize_company_url() {
    assert_eq!(normalize_company_url("razorpay"), "https://www.linkedin.com/company/razorpay");
    assert_eq!(normalize_company_url("https://linkedin.com/company/razorpay"), "https://linkedin.com/company/razorpay");
}

#[test]
fn test_normalize_profile_url() {
    assert_eq!(normalize_profile_url("johndoe"), "https://www.linkedin.com/in/johndoe");
    assert_eq!(normalize_profile_url("https://linkedin.com/in/johndoe"), "https://linkedin.com/in/johndoe");
}

#[test]
fn test_parse_x_markdown() {
    let md = "Title: Razorpay (@Razorpay) / X\n\nURL Source: https://x.com/razorpay\n\nBacking India's Boldest Founders. Join the movement\n\n## Razorpay's posts\n";
    let profile = parse_x_markdown(md, "razorpay");
    assert_eq!(profile.handle, "razorpay");
    assert_eq!(profile.bio, Some("Backing India's Boldest Founders. Join the movement".to_string()));
}

#[test]
fn normalize_bare_linkedin_path_gets_scheme() {
    assert_eq!(normalize_company_url("  linkedin.com/company/acme/ "), "https://linkedin.com/company/acme");
}

#[test]
fn username_from_other_url_is_last_segment() {
    assert_eq!(extract_username("https://example.com/people/jane/"), "jane");
}

#[test]
fn company_page_fields() {
    let md = "Title: Acme Corp | LinkedIn\n\nFinancial Services\n12,345 followers\n501-1,000 employees\nMumbai, Maharashtra\n\nAbout\nWe build rockets.\nAnd more.\n\n## Jobs\n";
    let info = parse_company_markdown(md, "https://www.linkedin.com/company/acme");
    assert_eq!(info.name, "Acme Corp");
    assert_eq!(info.industry.as_deref(), Some("Financial Services"));
    assert_eq!(info.size.as_deref(), Some("501-1,000 employees"));
    assert_eq!(info.hq.as_deref(), Some("Mumbai, Maharashtra"));
    assert_eq!(info.description.as_deref(), Some("We build rockets. And more."));
    assert_eq!(info.linkedin_url.as_deref(), Some("https://www.linkedin.com/company/acme"));
    assert_eq!(info.domain, None);
}

#[test]
fn profile_page_sections() {
    let md = "# Jane Doe - Engineer | LinkedIn\nStaff engineer at Acme Corp\n## About\nI like systems.\n## Experience\nStaff Engineer, Acme\n[link]\n## Education\nState University\n";
    let p = parse_profile_markdown(md, "https://www.linkedin.com/in/jane");
    assert_eq!(p.name, "Jane Doe");
    assert_eq!(p.headline.as_deref(), Some("Staff engineer at Acme Corp"));
    assert_eq!(p.about.as_deref(), Some("I like systems."));
    assert_eq!(p.experience, vec!["Staff Engineer, Acme"]);
    assert_eq!(p.education, vec!["State University"]);
    assert!(p.recent_posts.is_empty());
}

#[test]
fn x_posts_follow_profile_pictures() {
    let md = "Square profile picture\nFirst post text is long enough\n![img](a)\nSquare profile picture\nSecond post text here ok\n";
    let p = parse_x_markdown(md, "acme");
    let texts: Vec<&str> = p.recent_tweets.iter().map(|t| t.text.as_str()).collect();
    assert_eq!(texts, vec!["First post text is long enough", "Second post text here ok"]);
    assert_eq!(p.followers, None);
}

#[test]
fn handles_are_normalized() {
    assert_eq!(normalize_handle("@razorpay"), "razorpay");
    assert_eq!(normalize_handle("https://x.com/razorpay/"), "razorpay");
    assert_eq!(normalize_handle("https://twitter.com/razorpay"), "razorpay");
}

#[test]
fn username_round_trips_through_profile_url() {
    for u in ["johndoe", "jane-doe-123", "a"] {
        assert_eq!(extract_username(&normalize_profile_url(u)), u);
    }
}
