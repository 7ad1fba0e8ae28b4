use canvas_fuzzy_finder::cache::{should_use_cache, FRESHNESS_SECS};

#[test]
fn freshness_bound_is_three_hundred_seconds() {
    assert_eq!(FRESHNESS_SECS, 300);
}

#[test]
fn young_cache_file_is_served() {
    assert!(should_use_cache(false, Some(0)));
    assert!(should_use_cache(false, Some(299)));
}

#[test]
fn cache_file_at_the_bound_is_stale() {
    assert!(!should_use_cache(false, Some(300)));
}

#[test]
fn old_cache_file_is_stale() {
    assert!(!should_use_cache(false, Some(301)));
    assert!(!should_use_cache(false, Some(u64::MAX)));
}

#[test]
fn absent_cache_file_is_never_served() {
    assert!(!should_use_cache(false, None));
}

#[test]
fn forced_refresh_never_consults_the_cache() {
    assert!(!should_use_cache(true, Some(0)));
    assert!(!should_use_cache(true, Some(299)));
    assert!(!should_use_cache(true, None));
}
