use forage::config::{
    default_cache_db, default_cache_ttl, default_concurrency, default_cookies_dir, default_linkedin_daily_cap,
    default_linkedin_max_delay, default_linkedin_min_delay, default_log_level, default_timeout,
    default_x_daily_cap, default_x_max_delay, default_x_min_delay, expand_tilde, expand_tilde_with, Config,
};

#[test]
fn defaults_match_documented_values() {
    assert_eq!(default_cache_ttl(), 86400);
    assert_eq!(default_linkedin_min_delay(), 8000);
    assert_eq!(default_linkedin_max_delay(), 15000);
    assert_eq!(default_linkedin_daily_cap(), 80);
    assert_eq!(default_x_min_delay(), 6000);
    assert_eq!(default_x_max_delay(), 12000);
    assert_eq!(default_x_daily_cap(), 200);
    assert_eq!(default_timeout(), 30);
    assert_eq!(default_concurrency(), 10);
    assert_eq!(default_cache_db(), "~/.forage/cache.db");
    assert_eq!(default_cookies_dir(), "~/.forage/cookies");
    assert_eq!(default_log_level(), "info");
}

#[test]
fn config_without_file_is_the_defaults() {
    let c = Config::load(None);
    assert_eq!(c.general.default_cache_ttl_seconds, 86400);
    assert_eq!(c.fetch.default_timeout_seconds, 30);
    assert_eq!(c.fetch.parallel_concurrency, 10);
    assert_eq!(c.fetch.jina_api_key, "");
    assert_eq!(c.rate_limits.linkedin_daily_cap, 80);
    assert_eq!(c.apollo.api_key, "");
    let mut custom = Config::default();
    custom.apollo.api_key = "k".to_string();
    assert_eq!(Config::load(Some(custom)).apollo.api_key, "k");
}

#[test]
fn tilde_expansion() {
    assert_eq!(expand_tilde_with("~/.forage/cache.db", Some("/home/u")), "/home/u/.forage/cache.db");
    assert_eq!(expand_tilde_with("~/x", Some("/home/u/")), "/home/u/x");
    assert_eq!(expand_tilde_with("~\\x", Some("/home/u")), "/home/u/x");
    assert_eq!(expand_tilde_with("~//etc", Some("/home/u")), "/etc");
    assert_eq!(expand_tilde_with("~/x", None), "~/x");
    assert_eq!(expand_tilde_with("/abs/path", Some("/home/u")), "/abs/path");
    assert_eq!(expand_tilde_with("~user/x", Some("/home/u")), "~user/x");
    assert_eq!(expand_tilde("/abs/path"), "/abs/path");
    let mut c = Config::default();
    c.general.cache_db = "/tmp/cache.db".to_string();
    assert_eq!(c.cache_db_path(), "/tmp/cache.db");
}

#[test]
fn default_paths_under_home() {
    let c = Config::default();
    assert_eq!(c.cache_db_path_in(Some("/home/u")), "/home/u/.forage/cache.db");
    assert_eq!(c.cookies_dir_path_in(Some("/home/u")), "/home/u/.forage/cookies");
    assert_eq!(c.cache_db_path_in(None), "~/.forage/cache.db");
}
