use forage::cache::{cache_key, cache_row, count_for_today, live_entry, next_count};

#[test]
fn test_cache_key_deterministic() {
    let k1 = cache_key("direct", "https://example.com", "");
    let k2 = cache_key("direct", "https://example.com", "");
    assert_eq!(k1, k2);
}

#[test]
fn test_cache_key_differs_by_method() {
    let k1 = cache_key("direct", "https://example.com", "");
    let k2 = cache_key("jina", "https://example.com", "");
    assert_ne!(k1, k2);
}

#[test]
fn cache_key_is_sha256_hex_of_joined_parts() {
    assert_eq!(cache_key("a", "b", "c"), "b0ee04f880c4ff4261479e2e7822b7410aee4c7159f4185ad5b0d88a312b495e");
    assert_eq!(cache_key("", "", ""), "71546855d6279ef70d20909b292c42c2dcb02cd06bde01485da52d13e304ebf4");
    assert_eq!(cache_key("x", "y", "z").len(), 64);
}

#[test]
fn test_put_and_get_row() {
    let key = cache_key("direct", "https://example.com", "");
    let row = cache_row(&key, "https://example.com", "direct", "# Hello World", Some(200), 1000, 3600);
    let entry = live_entry(Some(row), 1000).unwrap();
    assert_eq!(entry.url, "https://example.com");
    assert_eq!(entry.method, "direct");
    assert_eq!(entry.content, "# Hello World");
    assert_eq!(entry.status_code, Some(200));
}

#[test]
fn zero_ttl_is_never_served() {
    let row = cache_row("k", "https://example.com", "direct", "expired content", Some(200), 1000, 0);
    assert!(live_entry(Some(row), 1000).is_none());
    let row = cache_row("k", "u", "m", "abcé", None, 5, 10);
    assert_eq!(row.size_bytes, 5);
    assert_eq!(row.expires_at, 15);
    assert!(live_entry(Some(row), 15).is_none());
}

#[test]
fn rate_counter_rules() {
    assert_eq!(count_for_today(None, "2024-01-02"), ("2024-01-02".to_string(), 0));
    assert_eq!(next_count(None, "2024-01-02"), 1);
    let stored = Some(("2024-01-02".to_string(), 1));
    assert_eq!(next_count(stored.clone(), "2024-01-02"), 2);
    assert_eq!(count_for_today(Some(("2024-01-02".to_string(), 2)), "2024-01-02").1, 2);
    assert_eq!(count_for_today(Some(("2024-01-01".to_string(), 7)), "2024-01-02"), ("2024-01-02".to_string(), 0));
    assert_eq!(next_count(Some(("2024-01-01".to_string(), 7)), "2024-01-02"), 1);
}
