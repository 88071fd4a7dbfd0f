# forage

A web research toolkit for LLM agents — page fetching with a reader-service
fallback, site crawling, web search, the Wayback Machine, and LinkedIn, X and
Apollo.io lookups — whose decisions are specified and proved with Verus.

## Layout

- `src/` — the verified library.
  - `text.rs` — string operations (trimming, searching, replacing, lines,
    decimal and UTF-8 lengths) with their specifications.
  - `weburl.rs` — URLs as the `url` crate parses and joins them; percent-encoding.
  - `json.rs` — the fields of the objects of one array of a JSON document.
  - `config.rs` — configuration defaults and `~` expansion.
  - `cache.rs` — cache keys, rows, expiry and daily request counters, with
    the read-after-write and expiry laws.
  - `rate_limit.rs` — daily caps and request pacing.
  - `fetch/` — the direct/reader fallback chain, robots.txt, sitemaps, feeds,
    link extraction and the crawler: the discovery chain (robots.txt sitemaps,
    standard sitemaps, feeds, home-page feeds, link crawl) and the
    breadth-first link crawl.
  - `search/` — DuckDuckGo result reading and the Wayback Machine query.
  - `social/` — LinkedIn, X and Apollo.io pages, sessions and answers.
  - `tools.rs` — the research tools' defaults, queries, filters and reports.
- `tests/` — tests of the library on concrete inputs.
- `app/` — the MCP server: HTTP, SQLite, files, processes and the async
  orchestration, calling the library for every decision.
