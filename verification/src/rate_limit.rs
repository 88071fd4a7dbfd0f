//! Per-platform pacing: daily caps and randomized delays between requests.
use vstd::prelude::*;
use core::time::Duration;
use crate::cache::{next_count, stored_count};
use crate::text::{append, append_str, decimal, decimal_of, str_eq, string_of};

verus! {

/// `Duration::clone`: `Duration` is `Copy`, so a clone is the same value.
pub assume_specification[ <core::time::Duration as Clone>::clone ](d: &Duration) -> (r: Duration)
    ensures
        r == *d,
;

/// How one platform is paced.
#[derive(Debug, Clone)]
pub struct RateLimiterConfig {
    pub platform: String,
    pub min_delay: Duration,
    pub max_delay: Duration,
    pub daily_cap: usize,
}

/// Why a request may not be made now.
#[derive(Debug)]
pub enum RateLimitError {
    DailyCapExceeded { platform: String, count: usize, cap: usize },
}

/// The text a rate-limit error is shown as.
pub open spec fn rate_limit_text(e: RateLimitError) -> Seq<char> {
    match e {
        RateLimitError::DailyCapExceeded { platform, count, cap } => platform@
            + " daily cap reached ("@ + decimal(count as nat) + "/"@ + decimal(cap as nat)
            + " requests today). Resets at midnight UTC."@,
    }
}

impl RateLimitError {
    /// The message this error is shown with.
    pub fn message(&self) -> (m: String)
        ensures
            m@ == rate_limit_text(*self),
    {
        match self {
            RateLimitError::DailyCapExceeded { platform, count, cap } => {
                let mut v: Vec<char> = Vec::new();
                append_str(&mut v, platform.as_str());
                append_str(&mut v, " daily cap reached (");
                append(&mut v, decimal_of(*count as u64).as_slice());
                append_str(&mut v, "/");
                append(&mut v, decimal_of(*cap as u64).as_slice());
                append_str(&mut v, " requests today). Resets at midnight UTC.");
                string_of(v.as_slice())
            },
        }
    }
}

/// A request is refused once today's count has reached the cap.
pub fn check_daily_cap(platform: &str, count: usize, cap: usize) -> (r: Result<(), RateLimitError>)
    ensures
        count < cap ==> r is Ok,
        count >= cap ==> (r matches Err(RateLimitError::DailyCapExceeded { platform: p, count: c, cap: k })
            && p@ == platform@ && c == count && k == cap),
{
    if count >= cap {
        Err(RateLimitError::DailyCapExceeded { platform: platform.to_string(), count, cap })
    } else {
        Ok(())
    }
}

/// How many more requests today allows (`cap - count`, at least zero).
pub fn remaining_today(cap: usize, count: usize) -> (n: usize)
    ensures
        n == if count <= cap {
            cap - count
        } else {
            0
        },
{
    cap.saturating_sub(count)
}

/// How long to wait, in nanoseconds, before the next request: what is left of the
/// drawn delay since the last request.
pub open spec fn wait_for(elapsed_nanos: u128, delay_ms: u64) -> int {
    if elapsed_nanos < delay_ms * 1_000_000 {
        delay_ms * 1_000_000 - elapsed_nanos
    } else {
        0
    }
}

/// The wait before the next request when `delay_ms` was drawn.
pub fn wait_nanos(elapsed_nanos: u128, delay_ms: u64) -> (w: u128)
    ensures
        w == wait_for(elapsed_nanos, delay_ms),
{
    let delay: u128 = delay_ms as u128 * 1_000_000;
    if elapsed_nanos < delay {
        delay - elapsed_nanos
    } else {
        0
    }
}

/// `rand::thread_rng().gen_range(min..=max)`: a random number between `min` and
/// `max` inclusive. It panics on an empty range, hence the requirement.
#[verifier::external_body]
fn random_between(min: u64, max: u64) -> (r: u64)
    requires
        min <= max,
    ensures
        min <= r <= max,
{
    rand::Rng::gen_range(&mut rand::thread_rng(), min..=max)
}

/// Draws a delay between `min_ms` and `max_ms` and returns the wait, in
/// nanoseconds, still due after `elapsed_nanos` since the last request.
pub fn pacing_wait(elapsed_nanos: u128, min_ms: u64, max_ms: u64) -> (w: u128)
    requires
        min_ms <= max_ms,
    ensures
        exists|d: u64| min_ms <= d <= max_ms && w == wait_for(elapsed_nanos, d),
        w <= max_ms * 1_000_000,
{
    let d = random_between(min_ms, max_ms);
    wait_nanos(elapsed_nanos, d)
}

/// A request is refused exactly when no request remains for today.
pub proof fn law_refused_iff_none_remaining(count: usize, cap: usize)
    ensures
        (count >= cap) <==> ((if count <= cap {
            cap - count
        } else {
            0
        }) == 0),
{
}

/// After the wait the drawn delay has passed since the last request, and no wait
/// is due once it has.
pub proof fn law_wait_covers_delay(elapsed_nanos: u128, delay_ms: u64)
    ensures
        elapsed_nanos + wait_for(elapsed_nanos, delay_ms) >= delay_ms * 1_000_000,
        elapsed_nanos >= delay_ms * 1_000_000 ==> wait_for(elapsed_nanos, delay_ms) == 0,
{
}

/// What a request for a platform does to its stored daily counter: refused
/// (`None`, the counter left as it is) once today's count has reached the cap,
/// else allowed with today's count raised by one.
pub open spec fn acquire_outcome(stored: Option<(String, usize)>, today: Seq<char>, cap: usize) -> Option<nat> {
    if stored_count(stored, today) >= cap {
        None
    } else {
        Some(stored_count(stored, today) + 1)
    }
}

/// The cap check of one request for `platform`, from its stored counter
/// `stored` on the day `today`: the cap error with today's count when the count
/// has reached `cap`, else the count to store for today once the request is made.
pub fn acquire_count(stored: Option<(String, usize)>, today: &str, platform: &str, cap: usize) -> (r: Result<
    usize,
    RateLimitError,
>)
    ensures
        match acquire_outcome(stored, today@, cap) {
            None => r matches Err(RateLimitError::DailyCapExceeded { platform: p, count: c, cap: k }) && p@
                == platform@ && c == stored_count(stored, today@) && k == cap,
            Some(n) => r == Ok::<usize, RateLimitError>(n as usize),
        },
{
    let count: usize = match &stored {
        Some((date, c)) => if str_eq(date.as_str(), today) {
            *c
        } else {
            0
        },
        None => 0,
    };
    match check_daily_cap(platform, count, cap) {
        Err(e) => Err(e),
        Ok(()) => Ok(next_count(stored, today)),
    }
}

/// The daily cap over a whole request: a request is refused exactly when
/// today's count has reached the cap, a refused request leaves the counter as
/// it was, and an allowed one is counted once, so the counter then reads one more.
pub proof fn law_acquire_counts_once(stored: Option<(String, usize)>, today: String, cap: usize)
    ensures
        acquire_outcome(stored, today@, cap) is None <==> stored_count(stored, today@) >= cap,
        acquire_outcome(stored, today@, cap) matches Some(n) ==> n <= cap && stored_count(
            Some((today, n as usize)),
            today@,
        ) == stored_count(stored, today@) + 1,
{
}

} // verus!
