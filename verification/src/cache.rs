//! The page cache and the per-platform request counters: keys, expiry and the
//! counting rules. The database itself is opened and queried by the caller.
use vstd::prelude::*;
use crate::text::{append_str, str_eq, string_of};
use vstd::utf8::encode_utf8;

verus! {

broadcast use vstd::string::group_string_axioms;

/// A cached page as it is handed back.
#[derive(Debug, Clone)]
pub struct CacheEntry {
    pub url: String,
    pub method: String,
    pub content: String,
    pub status_code: Option<i32>,
    pub fetched_at: i64,
}

/// A row of the cache table.
#[derive(Debug, Clone)]
pub struct CacheRow {
    pub key: String,
    pub url: String,
    pub method: String,
    pub content: String,
    pub status_code: Option<i32>,
    pub fetched_at: i64,
    pub expires_at: i64,
    pub size_bytes: i64,
}

/// The SHA-256 digest of `data` (as computed by the `sha2` crate).
pub uninterp spec fn sha256_digest(data: Seq<u8>) -> Seq<u8>;

/// `sha2::Sha256::digest`: the SHA-256 hash of `data`, 32 bytes long.
#[verifier::external_body]
fn sha256(data: &[u8]) -> (d: Vec<u8>)
    ensures
        d@ == sha256_digest(data@),
        d@.len() == 32,
{
    <sha2::Sha256 as sha2::Digest>::digest(data).to_vec()
}

/// The lower-case hex digit for `n < 16`.
pub open spec fn hex_digit(n: int) -> char {
    if n < 10 {
        ((n + ('0' as u32)) as u32) as char
    } else {
        ((n - 10 + ('a' as u32)) as u32) as char
    }
}

/// Lower-case hex encoding: two digits per byte, high nibble first.
pub open spec fn hex_lower(bytes: Seq<u8>) -> Seq<char>
    decreases bytes.len(),
{
    if bytes.len() == 0 {
        Seq::empty()
    } else {
        hex_lower(bytes.drop_last()).push(hex_digit(bytes.last() as int / 16)).push(
            hex_digit(bytes.last() as int % 16),
        )
    }
}

/// `hex::encode`: each byte as two lower-case hex digits, high nibble first.
#[verifier::external_body]
fn hex_encode(bytes: &[u8]) -> (s: String)
    ensures
        s@ == hex_lower(bytes@),
{
    hex::encode(bytes)
}

/// The text a cache key is the hash of.
pub open spec fn key_material(method: Seq<char>, url: Seq<char>, extra: Seq<char>) -> Seq<char> {
    method + ":"@ + url + ":"@ + extra
}

/// The cache key of a request: the lower-case hex SHA-256 of `method:url:extra`.
pub open spec fn cache_key_of(method: Seq<char>, url: Seq<char>, extra: Seq<char>) -> Seq<char> {
    hex_lower(sha256_digest(encode_utf8(key_material(method, url, extra))))
}

/// Builds the cache key for a method, URL and extra parameters.
pub fn cache_key(method: &str, url: &str, extra: &str) -> (k: String)
    ensures
        k@ == cache_key_of(method@, url@, extra@),
        k@.len() == 64,
{
    let mut v: Vec<char> = Vec::new();
    append_str(&mut v, method);
    append_str(&mut v, ":");
    append_str(&mut v, url);
    append_str(&mut v, ":");
    append_str(&mut v, extra);
    assert(v@ =~= key_material(method@, url@, extra@));
    let material = string_of(v.as_slice());
    let bytes = material.as_str().as_bytes();
    let digest = sha256(bytes);
    proof {
        lemma_cache_key_len(method@, url@, extra@);
    }
    hex_encode(digest.as_slice())
}

/// Hex encoding doubles the length.
pub proof fn lemma_hex_lower_len(bytes: Seq<u8>)
    ensures
        hex_lower(bytes).len() == 2 * bytes.len(),
    decreases bytes.len(),
{
    if bytes.len() > 0 {
        lemma_hex_lower_len(bytes.drop_last());
    }
}

/// Every cache key is 64 hex digits long.
pub proof fn lemma_cache_key_len(method: Seq<char>, url: Seq<char>, extra: Seq<char>)
    requires
        sha256_digest(encode_utf8(key_material(method, url, extra))).len() == 32,
    ensures
        cache_key_of(method, url, extra).len() == 64,
{
    lemma_hex_lower_len(sha256_digest(encode_utf8(key_material(method, url, extra))));
}

/// When an entry stored at `now` for `ttl` seconds expires (the lifetime is
/// taken as an `i64`, as `as` converts it).
pub open spec fn expiry(now: i64, ttl: u64) -> int {
    now + (ttl as i64)
}

/// An entry is served while its expiry lies after the current time.
pub open spec fn is_live(expires_at: i64, now: i64) -> bool {
    expires_at > now
}

/// The row stored for a page fetched at `now`, kept for `ttl_seconds`.
pub fn cache_row(
    key: &str,
    url: &str,
    method: &str,
    content: &str,
    status_code: Option<i32>,
    now: i64,
    ttl_seconds: u64,
) -> (row: CacheRow)
    requires
        i64::MIN <= now + (ttl_seconds as i64) <= i64::MAX,
    ensures
        row.key@ == key@,
        row.url@ == url@,
        row.method@ == method@,
        row.content@ == content@,
        row.status_code == status_code,
        row.fetched_at == now,
        row.expires_at == expiry(now, ttl_seconds),
        row.size_bytes == content.len() as i64,
{
    let expires = now + ttl_seconds as i64;
    let size = content.len() as i64;
    CacheRow {
        key: key.to_string(),
        url: url.to_string(),
        method: method.to_string(),
        content: content.to_string(),
        status_code,
        fetched_at: now,
        expires_at: expires,
        size_bytes: size,
    }
}

/// The entry a row holds.
pub open spec fn entry_in(r: CacheRow) -> CacheEntry {
    CacheEntry {
        url: r.url,
        method: r.method,
        content: r.content,
        status_code: r.status_code,
        fetched_at: r.fetched_at,
    }
}

/// What a lookup at time `now` answers for the row stored under its key.
pub open spec fn lookup(row: Option<CacheRow>, now: i64) -> Option<CacheEntry> {
    match row {
        Some(r) => if is_live(r.expires_at, now) {
            Some(entry_in(r))
        } else {
            None
        },
        None => None,
    }
}

/// What a lookup answers for the row stored under the key (if any) at time `now`:
/// the entry while it is live, nothing once it has expired.
pub fn live_entry(row: Option<CacheRow>, now: i64) -> (e: Option<CacheEntry>)
    ensures
        e == lookup(row, now),
{
    match row {
        Some(r) => {
            if r.expires_at > now {
                Some(
                    CacheEntry {
                        url: r.url,
                        method: r.method,
                        content: r.content,
                        status_code: r.status_code,
                        fetched_at: r.fetched_at,
                    },
                )
            } else {
                None
            }
        },
        None => None,
    }
}

/// A stored counter: the day it counts, and its count.
pub open spec fn stored_count(stored: Option<(String, usize)>, today: Seq<char>) -> nat {
    match stored {
        Some((date, count)) => if date@ == today {
            count as nat
        } else {
            0
        },
        None => 0,
    }
}

/// Today's request count for a platform, from the stored counter: the stored
/// count when it is for today, otherwise zero for today.
pub fn count_for_today(stored: Option<(String, usize)>, today: &str) -> (c: (String, usize))
    ensures
        c.0@ == today@,
        c.1 == stored_count(stored, today@),
{
    match stored {
        Some((date, count)) => {
            if str_eq(date.as_str(), today) {
                (date, count)
            } else {
                (today.to_string(), 0)
            }
        },
        None => (today.to_string(), 0),
    }
}

/// The count to store after one more request today.
pub fn next_count(stored: Option<(String, usize)>, today: &str) -> (n: usize)
    requires
        stored_count(stored, today@) < usize::MAX,
    ensures
        n == stored_count(stored, today@) + 1,
{
    match stored {
        Some((date, count)) => {
            if str_eq(date.as_str(), today) {
                count + 1
            } else {
                1
            }
        },
        None => 1,
    }
}

/// Reading after a write gives back what was written: a row stored at `now`
/// with lifetime `ttl` is handed back unchanged by every lookup before it expires.
pub proof fn law_read_after_write(r: CacheRow, now: i64, ttl: u64, t: i64)
    requires
        r.fetched_at == now,
        r.expires_at == expiry(now, ttl),
        now <= t < expiry(now, ttl),
    ensures
        lookup(Some(r), t) == Some(entry_in(r)),
        entry_in(r).content == r.content,
        entry_in(r).fetched_at == now,
{
}

/// An entry stored with no lifetime is never handed back, and no entry is handed
/// back once its expiry has passed.
pub proof fn law_expired_not_served(r: CacheRow, now: i64, ttl: u64, t: i64)
    requires
        r.fetched_at == now,
        r.expires_at == expiry(now, ttl),
        t >= expiry(now, ttl),
    ensures
        lookup(Some(r), t) is None,
        ttl == 0 ==> lookup(Some(r), now) is None,
{
}

/// Counting a request raises today's count by exactly one: the counter stored by
/// `next_count` reads back, through `count_for_today`, as the old count plus one.
pub proof fn law_count_increments(stored: Option<(String, usize)>, today: String, n: usize)
    requires
        n == stored_count(stored, today@) + 1,
    ensures
        stored_count(Some((today, n)), today@) == stored_count(stored, today@) + 1,
{
}

/// A counter stored on another day reads as zero today, and the first request of
/// the day is counted as one.
pub proof fn law_new_day_starts_at_zero(date: String, count: usize, today: Seq<char>)
    requires
        date@ != today,
    ensures
        stored_count(Some((date, count)), today) == 0,
{
}

} // verus!
