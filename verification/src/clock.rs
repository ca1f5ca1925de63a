use vstd::prelude::*;
use chrono::Datelike;

verus! {

/// Nanoseconds in one second.
pub const NANOS_PER_SECOND: i128 = 1_000_000_000;

/// An instant given as whole seconds and nanoseconds since the Unix epoch,
/// in nanoseconds.
pub open spec fn instant_nanos(seconds: i64, nanos: u32) -> int {
    seconds * 1_000_000_000 + nanos
}

/// `chrono::Utc::now()` as seconds and sub-second nanoseconds since the Unix
/// epoch. The nanoseconds stay below two billion (a leap second may exceed
/// one billion); nothing else is promised of the reading.
#[verifier::external_body]
fn utc_now_parts() -> (r: (i64, u32))
    ensures
        r.1 < 2_000_000_000,
{
    let now = chrono::Utc::now();
    (now.timestamp(), now.timestamp_subsec_nanos())
}

/// The current time in nanoseconds since the Unix epoch.
pub fn now_nanos() -> (t: i128)
    ensures
        exists|s: i64, n: u32| n < 2_000_000_000 && t == instant_nanos(s, n),
{
    let (s, n) = utc_now_parts();
    let t = s as i128 * NANOS_PER_SECOND + n as i128;
    assert(t == instant_nanos(s, n));
    t
}

/// The instant that an RFC 3339 date-time denotes, as
/// `chrono::DateTime::parse_from_rfc3339` reads it.
pub uninterp spec fn rfc3339_instant(text: Seq<char>) -> Option<(i64, u32)>;

/// `chrono::DateTime::parse_from_rfc3339`: the parsed instant as seconds and
/// sub-second nanoseconds since the Unix epoch, `None` when the text is not
/// an RFC 3339 date-time. The grammar is not restated here; the result is
/// `rfc3339_instant` of the text, and its nanoseconds stay below two billion.
#[verifier::external_body]
fn parse_rfc3339_parts(text: &str) -> (r: Option<(i64, u32)>)
    ensures
        r == rfc3339_instant(text@),
        r matches Some(p) ==> p.1 < 2_000_000_000,
{
    match chrono::DateTime::parse_from_rfc3339(text) {
        Ok(dt) => Some((dt.timestamp(), dt.timestamp_subsec_nanos())),
        Err(_) => None,
    }
}

/// The instant of an RFC 3339 date-time in nanoseconds since the Unix epoch.
pub open spec fn rfc3339_nanos(text: Seq<char>) -> Option<int> {
    match rfc3339_instant(text) {
        Some(p) => Some(instant_nanos(p.0, p.1)),
        None => None,
    }
}

/// Parses an RFC 3339 date-time into nanoseconds since the Unix epoch.
pub fn parse_instant_nanos(text: &str) -> (r: Option<i128>)
    ensures
        match r {
            Some(t) => rfc3339_nanos(text@) == Some(t as int),
            None => rfc3339_nanos(text@) is None,
        },
{
    match parse_rfc3339_parts(text) {
        Some((s, n)) => Some(s as i128 * NANOS_PER_SECOND + n as i128),
        None => None,
    }
}

/// Today's day of the week in UTC, Monday being 1 and Sunday 7
/// (`Utc::now().date_naive().weekday().number_from_monday()`).
#[verifier::external_body]
fn utc_weekday_number() -> (d: u32)
    ensures
        1 <= d <= 7,
{
    chrono::Utc::now().date_naive().weekday().number_from_monday()
}

/// Whether a day of the week (Monday being 1) falls on a race weekend:
/// Friday, Saturday or Sunday.
pub fn is_race_weekend_day(weekday_from_monday: u32) -> (r: bool)
    ensures
        r == (5 <= weekday_from_monday <= 7),
{
    5 <= weekday_from_monday && weekday_from_monday <= 7
}

/// Whether today (UTC) is a Friday, Saturday or Sunday.
pub fn is_race_weekend() -> bool {
    let day = utc_weekday_number();
    is_race_weekend_day(day)
}

/// The current year in UTC (`Utc::now().year()`), within chrono's range of
/// years.
#[verifier::external_body]
fn utc_year() -> (y: i32)
    ensures
        -262_143 <= y <= 262_142,
{
    chrono::Utc::now().year()
}

/// The season asked for, or the current year when none is.
pub fn season_or_current(year: Option<i32>) -> (y: i32)
    ensures
        year matches Some(v) ==> y == v,
        year is None ==> -262_143 <= y <= 262_142,
{
    match year {
        Some(v) => v,
        None => utc_year(),
    }
}

/// The season before `year`.
pub fn season_before(year: i32) -> (y: i32)
    requires
        year > i32::MIN,
    ensures
        y == year - 1,
{
    year - 1
}

/// The season before the current one.
pub fn previous_season() -> (y: i32)
    ensures
        -262_144 <= y <= 262_141,
{
    season_before(utc_year())
}

/// A cached value and the instant (nanoseconds since the Unix epoch) after
/// which it is stale.
#[derive(Clone, Debug)]
pub struct CacheEntry<T> {
    pub value: T,
    pub expires_at: i128,
}

/// The longest time to live a cache entry may have, in seconds.
pub const MAX_TTL_SECONDS: i64 = 9_223_372_036_854_775;

impl<T> CacheEntry<T> {
    /// An entry created at `now` that expires `ttl_seconds` later.
    pub fn new_at(value: T, ttl_seconds: i64, now: i128) -> (e: Self)
        requires
            -MAX_TTL_SECONDS <= ttl_seconds <= MAX_TTL_SECONDS,
            -1_000_000_000_000_000_000_000_000_000_000 <= now <= 1_000_000_000_000_000_000_000_000_000_000,
        ensures
            e.value == value,
            e.expires_at == now + ttl_seconds * 1_000_000_000,
    {
        CacheEntry { value, expires_at: now + ttl_seconds as i128 * NANOS_PER_SECOND }
    }

    /// An entry created now that expires `ttl_seconds` later.
    pub fn new(value: T, ttl_seconds: i64) -> (e: Self)
        requires
            -MAX_TTL_SECONDS <= ttl_seconds <= MAX_TTL_SECONDS,
        ensures
            e.value == value,
            exists|s: i64, n: u32|
                n < 2_000_000_000 && e.expires_at == #[trigger] instant_nanos(s, n) + ttl_seconds
                    * 1_000_000_000,
    {
        let now = now_nanos();
        CacheEntry::new_at(value, ttl_seconds, now)
    }

    /// Whether the entry is stale at `now`: strictly after its expiry.
    pub fn is_expired_at(&self, now: i128) -> (r: bool)
        ensures
            r == (now > self.expires_at),
    {
        now > self.expires_at
    }

    /// Whether the entry is stale now: strictly after its expiry, for the
    /// clock's reading of the current time.
    pub fn is_expired(&self) -> (r: bool)
        ensures
            exists|s: i64, n: u32|
                n < 2_000_000_000 && r == (#[trigger] instant_nanos(s, n) > self.expires_at),
    {
        let now = now_nanos();
        self.is_expired_at(now)
    }
}

/// How long cached news stay fresh, in nanoseconds: six hours.
pub const NEWS_TTL_NANOS: i128 = 21_600_000_000_000;

/// Whether cached news are fresh: the latest article was cached less than
/// six hours before `now`.
pub fn news_cache_fresh(latest_cached_at: Option<i128>, now: i128) -> (r: bool)
    requires
        latest_cached_at matches Some(t) ==> i128::MIN <= now - t <= i128::MAX,
    ensures
        r == match latest_cached_at {
            Some(t) => now - t < NEWS_TTL_NANOS,
            None => false,
        },
{
    match latest_cached_at {
        Some(t) => now - t < NEWS_TTL_NANOS,
        None => false,
    }
}

/// One day in nanoseconds.
pub const DAY_NANOS: i128 = 86_400_000_000_000;

/// Whether a race session whose end is `date_end` is still to finish at
/// `now`: its end lies after `now`; an end that does not parse counts as a
/// day before `now`, and a session without an end counts as finished.
pub fn session_end_pending(date_end: Option<&str>, now: i128) -> (r: bool)
    requires
        -1_000_000_000_000_000_000_000_000_000_000 <= now <= 1_000_000_000_000_000_000_000_000_000_000,
    ensures
        r == match date_end {
            Some(s) => match rfc3339_nanos(s@) {
                Some(end) => end > now,
                None => now - DAY_NANOS > now,
            },
            None => false,
        },
{
    match date_end {
        Some(s) => {
            let end = match parse_instant_nanos(s) {
                Some(t) => t,
                None => now - DAY_NANOS,
            };
            end > now
        },
        None => false,
    }
}

/// How long to wait before the next request, in nanoseconds: what is left of
/// the minimum delay since the last request, nothing when there was none.
pub fn rate_limit_wait(since_last: Option<u128>, min_delay: u128) -> (wait: u128)
    ensures
        wait == match since_last {
            Some(e) => if e < min_delay {
                (min_delay - e) as u128
            } else {
                0u128
            },
            None => 0u128,
        },
{
    match since_last {
        Some(e) => {
            if e < min_delay {
                min_delay - e
            } else {
                0
            }
        },
        None => 0,
    }
}

/// Seconds between checks when no race is on: one hour.
pub const POLL_INTERVAL_IDLE: u64 = 3600;

/// Seconds between checks while a race is on: five minutes.
pub const POLL_INTERVAL_ACTIVE: u64 = 300;

/// The next polling interval of the scoring worker from the outcome of a
/// check: active polling while a race is on, idle polling when none is,
/// and the same interval after a failed check.
pub fn next_poll_interval(outcome: Option<bool>, current: u64) -> (next: u64)
    ensures
        next == match outcome {
            Some(true) => POLL_INTERVAL_ACTIVE,
            Some(false) => POLL_INTERVAL_IDLE,
            None => current,
        },
{
    match outcome {
        Some(true) => POLL_INTERVAL_ACTIVE,
        Some(false) => POLL_INTERVAL_IDLE,
        None => current,
    }
}

} // verus!
