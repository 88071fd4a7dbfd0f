use forage::fetch::FetchError;
use forage::social::linkedin::{
    linkedin_session, parse_html_profile, parse_voyager_profile, profile_body_check, profile_from_answer, profile_page_url,
    profile_status_check,
};
use forage::social::x::x_session;
use forage::social::{find_cookie, reader_status_check, CookieEntry};

fn cookie(name: &str, value: &str) -> CookieEntry {
    CookieEntry { name: name.to_string(), value: value.to_string() }
}

fn http_error<T>(r: Result<T, FetchError>) -> String {
    match r {
        Err(FetchError::HttpError(m)) => m,
        _ => panic!("expected an HTTP error"),
    }
}

#[test]
fn html_profile_from_embedded_data() {
    let html = r#"<html><head><title>Jane Roe - Engineer | LinkedIn</title></head><body>
        <code>{"data": 1}</code>
        <code>{&quot;included&quot;:[{&quot;firstName&quot;:&quot;Jane&quot;,&quot;lastName&quot;:&quot;Doe&quot;,&quot;headline&quot;:&quot;CTO at Acme&quot;},{&quot;companyName&quot;:&quot;Acme&quot;,&quot;title&quot;:&quot;CTO&quot;},{&quot;schoolName&quot;:&quot;MIT&quot;},{&quot;schoolName&quot;:&quot;&quot;}]}</code>
        </body></html>"#;
    let p = parse_html_profile(html, "janedoe");
    assert_eq!(p.name, "Jane Doe");
    assert_eq!(p.headline, Some("CTO at Acme".to_string()));
    assert_eq!(p.about, None);
    assert_eq!(p.experience, vec!["CTO at Acme".to_string()]);
    assert_eq!(p.education, vec!["MIT".to_string()]);
    assert!(p.recent_posts.is_empty());
}

#[test]
fn html_profile_falls_back_to_title_then_username() {
    let p = parse_html_profile("<html><head><title>Jane Roe - Engineer | LinkedIn</title></head></html>", "janeroe");
    assert_eq!(p.name, "Jane Roe");
    assert_eq!(p.headline, Some("Engineer".to_string()));
    let q = parse_html_profile("<html><head><title>LinkedIn</title></head></html>", "janeroe");
    assert_eq!(q.name, "janeroe");
    assert_eq!(q.headline, None);
}

#[test]
fn voyager_profile_reads_included_items() {
    let body = r#"{"included":[{"firstName":"A","lastName":"B"},{"headline":"H"},{"companyName":"C","title":"T"},{"schoolName":""},{"summary":"S"}]}"#;
    let p = parse_voyager_profile(body, "user").ok().unwrap();
    assert_eq!(p.name, "A B");
    assert_eq!(p.headline, Some("H".to_string()));
    assert_eq!(p.about, Some("S".to_string()));
    assert_eq!(p.experience, vec!["T at C".to_string()]);
    assert_eq!(p.education, vec!["".to_string()]);
    let q = parse_voyager_profile("{}", "user").ok().unwrap();
    assert_eq!(q.name, "user");
    assert!(http_error(parse_voyager_profile("not json", "user")).starts_with("Failed to parse LinkedIn response: "));
}

#[test]
fn linkedin_session_from_cookies() {
    let cookies = vec![cookie("li_at", "abc"), cookie("JSESSIONID", "\"ajax:123\"")];
    let s = linkedin_session(&cookies).ok().unwrap();
    assert_eq!(s.cookie_header, "li_at=abc; JSESSIONID=\"ajax:123\"");
    assert_eq!(s.csrf_token, "ajax:123");
    let t = linkedin_session(&vec![cookie("li_at", "x")]).ok().unwrap();
    assert_eq!(t.csrf_token, "");
    assert_eq!(
        http_error(linkedin_session(&vec![cookie("other", "1")])),
        "LinkedIn cookie missing 'li_at'. Re-export cookies from browser."
    );
}

#[test]
fn linkedin_page_checks() {
    assert_eq!(profile_page_url("johndoe"), "https://www.linkedin.com/in/johndoe/");
    assert!(profile_status_check(200).is_ok());
    assert_eq!(
        http_error(profile_status_check(302)),
        "LinkedIn session expired (302 redirect). Re-export cookies from browser."
    );
    assert_eq!(
        http_error(profile_status_check(301)),
        "LinkedIn session expired (302 redirect). Re-export cookies from browser."
    );
    assert_eq!(http_error(profile_status_check(999)), "LinkedIn blocked request (999). Account may need warming up.");
    assert_eq!(http_error(profile_status_check(404)), "LinkedIn returned status 404");
    assert_eq!(http_error(profile_body_check("short")), "LinkedIn returned auth wall. Re-export cookies from browser.");
    assert!(profile_body_check(&"a".repeat(5000)).is_ok());
    let wall = format!("{}\"authwall\"", "a".repeat(6000));
    assert!(profile_body_check(&wall).is_err());
}

#[test]
fn x_session_from_cookies() {
    let s = x_session(&vec![cookie("ct0", "c"), cookie("auth_token", "t"), cookie("auth_token", "u")]).ok().unwrap();
    assert_eq!(s.auth_token, "t");
    assert_eq!(s.ct0, "c");
    assert_eq!(
        http_error(x_session(&vec![cookie("ct0", "c")])),
        "X cookie expired or missing 'auth_token'. Run: forage login x"
    );
    assert_eq!(find_cookie(&vec![cookie("a", "1"), cookie("a", "2")], "a"), Some("1".to_string()));
}

#[test]
fn reader_status_messages() {
    assert!(reader_status_check(200, "X profile").is_ok());
    assert_eq!(http_error(reader_status_check(429, "X profile")), "Jina returned status 429 for X profile");
}

#[test]
fn profile_answer_checks_status_then_body() {
    assert_eq!(
        http_error(profile_from_answer(302, Ok(String::new()), "jane")),
        "LinkedIn session expired (302 redirect). Re-export cookies from browser."
    );
    assert_eq!(
        http_error(profile_from_answer(999, Err(FetchError::Timeout(5)), "jane")),
        "LinkedIn blocked request (999). Account may need warming up."
    );
    assert_eq!(http_error(profile_from_answer(500, Ok(String::new()), "jane")), "LinkedIn returned status 500");
    assert!(matches!(profile_from_answer(200, Err(FetchError::Timeout(5)), "jane"), Err(FetchError::Timeout(5))));
    assert_eq!(
        http_error(profile_from_answer(200, Ok("<html>short</html>".to_string()), "jane")),
        "LinkedIn returned auth wall. Re-export cookies from browser."
    );
    let page = format!("<html><head><title>LinkedIn</title></head><body>{}</body></html>", "x".repeat(5000));
    let p = profile_from_answer(200, Ok(page), "jane").ok().unwrap();
    assert_eq!(p.name, "jane");
    assert_eq!(p.headline, None);
}
