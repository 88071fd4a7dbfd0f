//! Configuration: settings with their defaults, and `~` expansion of paths.
use vstd::prelude::*;
use crate::text::{append, chars_of, ends_with, ends_with_str, starts_with, starts_with_str, string_of};

verus! {

broadcast use vstd::string::group_string_axioms;

/// All settings.
#[derive(Debug, Clone)]
pub struct Config {
    pub general: GeneralConfig,
    pub fetch: FetchConfig,
    pub rate_limits: RateLimitConfig,
    pub apollo: ApolloConfig,
    pub bing: BingConfig,
}

/// Where state is kept, and the default cache lifetime.
#[derive(Debug, Clone)]
pub struct GeneralConfig {
    pub cache_db: String,
    pub cookies_dir: String,
    pub log_level: String,
    pub default_cache_ttl_seconds: u64,
}

/// How pages are fetched.
#[derive(Debug, Clone)]
pub struct FetchConfig {
    pub direct_user_agent_profile: String,
    pub default_timeout_seconds: u64,
    pub parallel_concurrency: usize,
    pub jina_api_key: String,
}

/// Per-platform pacing and daily caps.
#[derive(Debug, Clone)]
pub struct RateLimitConfig {
    pub linkedin_min_delay_ms: u64,
    pub linkedin_max_delay_ms: u64,
    pub linkedin_daily_cap: usize,
    pub x_min_delay_ms: u64,
    pub x_max_delay_ms: u64,
    pub x_daily_cap: usize,
    pub instagram_min_delay_ms: u64,
    pub instagram_max_delay_ms: u64,
    pub instagram_daily_cap: usize,
}

/// The Apollo.io API key (empty when not configured).
#[derive(Debug, Clone)]
pub struct ApolloConfig {
    pub api_key: String,
}

/// The Bing API key (empty when not configured).
#[derive(Debug, Clone)]
pub struct BingConfig {
    pub api_key: String,
}

pub fn default_cache_db() -> (s: String)
    ensures
        s@ == "~/.forage/cache.db"@,
{
    "~/.forage/cache.db".to_string()
}

pub fn default_cookies_dir() -> (s: String)
    ensures
        s@ == "~/.forage/cookies"@,
{
    "~/.forage/cookies".to_string()
}

pub fn default_log_level() -> (s: String)
    ensures
        s@ == "info"@,
{
    "info".to_string()
}

pub fn default_cache_ttl() -> (n: u64)
    ensures
        n == 86400,
{
    86400
}

pub fn default_user_agent_profile() -> (s: String)
    ensures
        s@ == "chrome_120"@,
{
    "chrome_120".to_string()
}

pub fn default_timeout() -> (n: u64)
    ensures
        n == 30,
{
    30
}

pub fn default_concurrency() -> (n: usize)
    ensures
        n == 10,
{
    10
}

pub fn default_linkedin_min_delay() -> (n: u64)
    ensures
        n == 8000,
{
    8000
}

pub fn default_linkedin_max_delay() -> (n: u64)
    ensures
        n == 15000,
{
    15000
}

pub fn default_linkedin_daily_cap() -> (n: usize)
    ensures
        n == 80,
{
    80
}

pub fn default_x_min_delay() -> (n: u64)
    ensures
        n == 6000,
{
    6000
}

pub fn default_x_max_delay() -> (n: u64)
    ensures
        n == 12000,
{
    12000
}

pub fn default_x_daily_cap() -> (n: usize)
    ensures
        n == 200,
{
    200
}

pub fn default_ig_min_delay() -> (n: u64)
    ensures
        n == 12000,
{
    12000
}

pub fn default_ig_max_delay() -> (n: u64)
    ensures
        n == 20000,
{
    20000
}

pub fn default_ig_daily_cap() -> (n: usize)
    ensures
        n == 60,
{
    60
}

/// The default general settings.
pub open spec fn is_default_general(g: GeneralConfig) -> bool {
    &&& g.cache_db@ == "~/.forage/cache.db"@
    &&& g.cookies_dir@ == "~/.forage/cookies"@
    &&& g.log_level@ == "info"@
    &&& g.default_cache_ttl_seconds == 86400
}

/// The default fetch settings.
pub open spec fn is_default_fetch(f: FetchConfig) -> bool {
    &&& f.direct_user_agent_profile@ == "chrome_120"@
    &&& f.default_timeout_seconds == 30
    &&& f.parallel_concurrency == 10
    &&& f.jina_api_key@.len() == 0
}

/// The default pacing: LinkedIn 8–15 s and 80 a day, X 6–12 s and 200 a day,
/// Instagram 12–20 s and 60 a day.
pub open spec fn is_default_rate_limits(r: RateLimitConfig) -> bool {
    &&& r.linkedin_min_delay_ms == 8000
    &&& r.linkedin_max_delay_ms == 15000
    &&& r.linkedin_daily_cap == 80
    &&& r.x_min_delay_ms == 6000
    &&& r.x_max_delay_ms == 12000
    &&& r.x_daily_cap == 200
    &&& r.instagram_min_delay_ms == 12000
    &&& r.instagram_max_delay_ms == 20000
    &&& r.instagram_daily_cap == 60
}

/// The default configuration: every section at its defaults, no API keys.
pub open spec fn is_default_config(c: Config) -> bool {
    &&& is_default_general(c.general)
    &&& is_default_fetch(c.fetch)
    &&& is_default_rate_limits(c.rate_limits)
    &&& c.apollo.api_key@.len() == 0
    &&& c.bing.api_key@.len() == 0
}

impl Default for GeneralConfig {
    fn default() -> (g: Self)
        ensures
            is_default_general(g),
    {
        GeneralConfig {
            cache_db: default_cache_db(),
            cookies_dir: default_cookies_dir(),
            log_level: default_log_level(),
            default_cache_ttl_seconds: default_cache_ttl(),
        }
    }
}

impl Default for FetchConfig {
    fn default() -> (f: Self)
        ensures
            is_default_fetch(f),
    {
        FetchConfig {
            direct_user_agent_profile: default_user_agent_profile(),
            default_timeout_seconds: default_timeout(),
            parallel_concurrency: default_concurrency(),
            jina_api_key: String::new(),
        }
    }
}

impl Default for RateLimitConfig {
    fn default() -> (r: Self)
        ensures
            is_default_rate_limits(r),
    {
        RateLimitConfig {
            linkedin_min_delay_ms: default_linkedin_min_delay(),
            linkedin_max_delay_ms: default_linkedin_max_delay(),
            linkedin_daily_cap: default_linkedin_daily_cap(),
            x_min_delay_ms: default_x_min_delay(),
            x_max_delay_ms: default_x_max_delay(),
            x_daily_cap: default_x_daily_cap(),
            instagram_min_delay_ms: default_ig_min_delay(),
            instagram_max_delay_ms: default_ig_max_delay(),
            instagram_daily_cap: default_ig_daily_cap(),
        }
    }
}

impl Default for ApolloConfig {
    fn default() -> (a: Self)
        ensures
            a.api_key@.len() == 0,
    {
        ApolloConfig { api_key: String::new() }
    }
}

impl Default for BingConfig {
    fn default() -> (b: Self)
        ensures
            b.api_key@.len() == 0,
    {
        BingConfig { api_key: String::new() }
    }
}

impl Default for Config {
    fn default() -> (c: Self)
        ensures
            is_default_config(c),
    {
        Config {
            general: GeneralConfig::default(),
            fetch: FetchConfig::default(),
            rate_limits: RateLimitConfig::default(),
            apollo: ApolloConfig::default(),
            bing: BingConfig::default(),
        }
    }
}

/// `base` joined with the relative or absolute path `rest`, as `Path::join` does on
/// Unix: an absolute `rest` replaces `base`, otherwise a `/` separates them unless
/// `base` is empty or already ends with one.
pub open spec fn path_joined(base: Seq<char>, rest: Seq<char>) -> Seq<char> {
    if starts_with(rest, "/"@) {
        rest
    } else if base.len() == 0 || ends_with(base, "/"@) {
        base + rest
    } else {
        base + "/"@ + rest
    }
}

/// A path starting with `~/` (or `~\`).
pub open spec fn has_tilde(path: Seq<char>) -> bool {
    starts_with(path, "~/"@) || starts_with(path, "~\\"@)
}

/// `path` with a leading `~/` replaced by the home directory, when one is known.
pub open spec fn tilde_expanded(path: Seq<char>, home: Option<Seq<char>>) -> Seq<char> {
    if has_tilde(path) && home is Some {
        path_joined(home.unwrap(), path.skip(2))
    } else {
        path
    }
}

/// `dirs::home_dir`, as a UTF-8 string (a home directory that is not valid UTF-8
/// is reported as unknown). It depends on the environment, so nothing is stated
/// of the result.
#[verifier::external_body]
fn home_dir() -> Option<String> {
    match dirs::home_dir() {
        Some(p) => p.into_os_string().into_string().ok(),
        None => None,
    }
}

/// `path` with a leading `~/` replaced by `home`, when `home` is known.
pub fn expand_tilde_with(path: &str, home: Option<&str>) -> (p: String)
    ensures
        p@ == tilde_expanded(
            path@,
            match home {
                Some(h) => Some(h@),
                None => None,
            },
        ),
{
    let c = chars_of(path);
    proof {
        reveal_strlit("~/");
        reveal_strlit("~\\");
    }
    if (starts_with_str(c.as_slice(), "~/") || starts_with_str(c.as_slice(), "~\\"))
        && home.is_some() {
        let h = chars_of(home.unwrap());
        let rest = &c.as_slice()[2..c.len()];
        assert(rest@ =~= path@.skip(2));
        if starts_with_str(rest, "/") {
            string_of(rest)
        } else if h.len() == 0 || ends_with_str(h.as_slice(), "/") {
            let mut v = h;
            append(&mut v, rest);
            string_of(v.as_slice())
        } else {
            let mut v = h;
            append(&mut v, chars_of("/").as_slice());
            append(&mut v, rest);
            string_of(v.as_slice())
        }
    } else {
        string_of(c.as_slice())
    }
}

/// Expands a leading `~/` to the user's home directory: the path with its
/// `~/` replaced by whatever home directory the environment names, or
/// unchanged when none is known.
pub fn expand_tilde(path: &str) -> (p: String)
    ensures
        exists|home: Option<Seq<char>>| p@ == #[trigger] tilde_expanded(path@, home),
        !has_tilde(path@) ==> p@ == path@,
{
    let home = home_dir();
    match home {
        Some(h) => {
            let p = expand_tilde_with(path, Some(h.as_str()));
            assert(p@ == tilde_expanded(path@, Some(h@)));
            p
        },
        None => {
            let p = expand_tilde_with(path, None);
            assert(p@ == tilde_expanded(path@, None));
            p
        },
    }
}

impl Config {
    /// The configuration to run with: the one read from the config file when it
    /// could be read and parsed, otherwise the defaults.
    pub fn load(parsed: Option<Config>) -> (c: Config)
        ensures
            parsed is Some ==> c == parsed.unwrap(),
            parsed is None ==> is_default_config(c),
    {
        match parsed {
            Some(c) => c,
            None => Config::default(),
        }
    }

    /// The cache database path with a leading `~/` replaced by `home`, when
    /// `home` is known.
    pub fn cache_db_path_in(&self, home: Option<&str>) -> (p: String)
        ensures
            p@ == tilde_expanded(
                self.general.cache_db@,
                match home {
                    Some(h) => Some(h@),
                    None => None,
                },
            ),
    {
        expand_tilde_with(self.general.cache_db.as_str(), home)
    }

    /// The cookie directory path with a leading `~/` replaced by `home`, when
    /// `home` is known.
    pub fn cookies_dir_path_in(&self, home: Option<&str>) -> (p: String)
        ensures
            p@ == tilde_expanded(
                self.general.cookies_dir@,
                match home {
                    Some(h) => Some(h@),
                    None => None,
                },
            ),
    {
        expand_tilde_with(self.general.cookies_dir.as_str(), home)
    }

    /// The cache database path, `~` expanded with the home directory the
    /// environment names.
    pub fn cache_db_path(&self) -> (p: String)
        ensures
            exists|home: Option<Seq<char>>| p@ == #[trigger] tilde_expanded(self.general.cache_db@, home),
            !has_tilde(self.general.cache_db@) ==> p@ == self.general.cache_db@,
    {
        match home_dir() {
            Some(h) => {
                let p = self.cache_db_path_in(Some(h.as_str()));
                assert(p@ == tilde_expanded(self.general.cache_db@, Some(h@)));
                p
            },
            None => {
                let p = self.cache_db_path_in(None);
                assert(p@ == tilde_expanded(self.general.cache_db@, None));
                p
            },
        }
    }

    /// The cookie directory path, `~` expanded with the home directory the
    /// environment names.
    pub fn cookies_dir_path(&self) -> (p: String)
        ensures
            exists|home: Option<Seq<char>>| p@ == #[trigger] tilde_expanded(self.general.cookies_dir@, home),
            !has_tilde(self.general.cookies_dir@) ==> p@ == self.general.cookies_dir@,
    {
        match home_dir() {
            Some(h) => {
                let p = self.cookies_dir_path_in(Some(h.as_str()));
                assert(p@ == tilde_expanded(self.general.cookies_dir@, Some(h@)));
                p
            },
            None => {
                let p = self.cookies_dir_path_in(None);
                assert(p@ == tilde_expanded(self.general.cookies_dir@, None));
                p
            },
        }
    }
}

} // verus!
