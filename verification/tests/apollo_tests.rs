use forage::fetch::FetchError;
use forage::social::apollo::{extract_hq, size_ranges_for, ApolloClient};

fn http_error<T>(r: Result<T, FetchError>) -> String {
    match r {
        Err(FetchError::HttpError(m)) => m,
        _ => panic!("expected an HTTP error"),
    }
}

#[test]
fn apollo_needs_a_key() {
    assert_eq!(
        http_error(ApolloClient::new("")),
        "Apollo API key not configured. Add apollo.api_key to config.toml"
    );
    let c = ApolloClient::new("k").ok().unwrap();
    assert_eq!(c.api_key(), "k");
}

#[test]
fn apollo_query_maps_size_letters() {
    let c = ApolloClient::new("k").ok().unwrap();
    let q = c.query("fintech", Some("b"), Some("India"), 150);
    assert_eq!(q.keywords, "fintech");
    assert_eq!(q.per_page, 100);
    assert_eq!(q.size_ranges, Some(vec!["2,10".to_string()]));
    assert_eq!(q.location, Some("India".to_string()));
    let r = c.query("x", Some("11,20"), None, 5);
    assert_eq!(r.per_page, 5);
    assert_eq!(r.size_ranges, Some(vec!["11,20".to_string()]));
    assert_eq!(r.location, None);
    assert_eq!(c.query("x", Some("G"), None, 1).size_ranges, Some(vec!["1001,5000".to_string()]));
    assert_eq!(c.query("x", None, None, 1).size_ranges, None);
}

#[test]
fn apollo_size_letter_in_either_case() {
    let c = ApolloClient::new("k").ok().unwrap();
    assert_eq!(c.query("x", Some("c"), None, 5).size_ranges, Some(vec!["11,50".to_string()]));
    assert_eq!(c.query("x", Some("C"), None, 5).size_ranges, Some(vec!["11,50".to_string()]));
    assert_eq!(size_ranges_for("E", "e"), vec!["201,500".to_string()]);
    assert_eq!(size_ranges_for("H", "h"), vec!["h".to_string()]);
    assert_eq!(size_ranges_for("AB", "ab"), vec!["ab".to_string()]);
}

#[test]
fn apollo_answers() {
    let c = ApolloClient::new("k").ok().unwrap();
    assert_eq!(http_error(c.companies_from_response(500, "oops", 10)), "Apollo API returned status 500: oops");
    assert!(http_error(c.companies_from_response(200, "{bad", 10)).starts_with("Failed to parse Apollo response: "));
    assert_eq!(c.companies_from_response(200, "{}", 10).ok().unwrap().len(), 0);
    let body = r#"{"organizations":[{"name":"Acme","primary_domain":"acme.com","industry":"software","estimated_num_employees":120,"city":"Pune","state":"","country":"India","short_description":"d","linkedin_url":"http://l"},{"name":"B"}]}"#;
    let all = c.companies_from_response(200, body, 10).ok().unwrap();
    assert_eq!(all.len(), 2);
    assert_eq!(all[0].name, "Acme");
    assert_eq!(all[0].domain, Some("acme.com".to_string()));
    assert_eq!(all[0].industry, Some("software".to_string()));
    assert_eq!(all[0].size, Some("120".to_string()));
    assert_eq!(all[0].hq, Some("Pune, India".to_string()));
    assert_eq!(all[0].description, Some("d".to_string()));
    assert_eq!(all[0].linkedin_url, Some("http://l".to_string()));
    assert_eq!(all[1].name, "B");
    assert_eq!(all[1].hq, None);
    assert_eq!(all[1].size, None);
    let one = c.companies_from_response(200, body, 1).ok().unwrap();
    assert_eq!(one.len(), 1);
}

#[test]
fn headquarters_join_non_empty_parts() {
    assert_eq!(extract_hq("", "", ""), None);
    assert_eq!(extract_hq("a", "b", "c"), Some("a, b, c".to_string()));
    assert_eq!(extract_hq("", "b", ""), Some("b".to_string()));
}
