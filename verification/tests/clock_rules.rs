use f1_fantasy::clock::{
    is_race_weekend_day, news_cache_fresh, next_poll_interval, now_nanos, parse_instant_nanos,
    previous_season, rate_limit_wait, season_before, season_or_current, session_end_pending,
    CacheEntry,
    DAY_NANOS, NEWS_TTL_NANOS, POLL_INTERVAL_ACTIVE, POLL_INTERVAL_IDLE,
};

#[test]
fn rfc3339_instants() {
    assert_eq!(parse_instant_nanos("1970-01-01T00:00:01Z"), Some(1_000_000_000));
    assert_eq!(parse_instant_nanos("1970-01-01T01:00:00+01:00"), Some(0));
    assert_eq!(parse_instant_nanos("1969-12-31T23:59:59.5Z"), Some(-500_000_000));
    assert_eq!(parse_instant_nanos("not a date"), None);
}

#[test]
fn race_end_checks() {
    let now = 1_000_000_000_000_000_000i128;
    assert!(session_end_pending(Some("2100-01-01T00:00:00Z"), now));
    assert!(!session_end_pending(Some("2000-01-01T00:00:00Z"), now));
    assert!(!session_end_pending(Some("garbage"), now));
    assert!(!session_end_pending(None, now));
    assert!(DAY_NANOS > 0);
}

#[test]
fn news_freshness() {
    assert!(news_cache_fresh(Some(100), 100 + NEWS_TTL_NANOS - 1));
    assert!(!news_cache_fresh(Some(100), 100 + NEWS_TTL_NANOS));
    assert!(!news_cache_fresh(None, 0));
}

#[test]
fn cache_entries_expire_after_their_ttl() {
    let e = CacheEntry::new_at(7u8, 3600, 1_000);
    assert_eq!(e.value, 7);
    assert_eq!(e.expires_at, 1_000 + 3_600_000_000_000);
    assert!(!e.is_expired_at(e.expires_at));
    assert!(e.is_expired_at(e.expires_at + 1));
    let fresh = CacheEntry::new("x", 3600);
    assert!(!fresh.is_expired());
    let stale = CacheEntry::new("x", -10);
    assert!(stale.is_expired());
}

#[test]
fn rate_limit_waits() {
    assert_eq!(rate_limit_wait(None, 300), 0);
    assert_eq!(rate_limit_wait(Some(100), 300), 200);
    assert_eq!(rate_limit_wait(Some(300), 300), 0);
    assert_eq!(rate_limit_wait(Some(900), 300), 0);
}

#[test]
fn poll_intervals() {
    assert_eq!(next_poll_interval(Some(true), POLL_INTERVAL_IDLE), POLL_INTERVAL_ACTIVE);
    assert_eq!(next_poll_interval(Some(false), POLL_INTERVAL_ACTIVE), POLL_INTERVAL_IDLE);
    assert_eq!(next_poll_interval(None, 42), 42);
    assert_eq!(POLL_INTERVAL_IDLE, 3600);
    assert_eq!(POLL_INTERVAL_ACTIVE, 300);
}

#[test]
fn weekends_and_years() {
    let days: Vec<bool> = (1..=7).map(is_race_weekend_day).collect();
    assert_eq!(days, vec![false, false, false, false, true, true, true]);
    assert_eq!(season_or_current(Some(2019)), 2019);
    let now_year = season_or_current(None);
    assert!(now_year >= 2024);
    assert_eq!(previous_season(), now_year - 1);
    assert!(now_nanos() > 1_700_000_000_000_000_000);
}

#[test]
fn season_before_counts_back() {
    assert_eq!(season_before(2026), 2025);
    assert_eq!(season_before(1), 0);
    assert_eq!(season_before(-5), -6);
}
