//! Freshness decision for the on-disk listing snapshot.
//!
//! The listing is persisted to a cache file; on a later run the only question
//! is whether that snapshot may be served again or must be rebuilt from the
//! remote API. The decision depends solely on how old the file is (and on an
//! explicit force-refresh request), so it is taken here on plain values; the
//! caller probes the filesystem and reports the file's age in whole seconds,
//! or `None` when no cache file exists.

use vstd::prelude::*;

verus! {

/// Age bound, in seconds, under which a cached listing may be served again.
pub const FRESHNESS_SECS: u64 = 300;

/// A cached snapshot is served exactly when no refresh was forced, a cache
/// file exists, and its age is strictly below the freshness bound. An age of
/// exactly `FRESHNESS_SECS` is stale.
pub open spec fn cache_fresh(force_refresh: bool, elapsed_secs: Option<u64>) -> bool {
    &&& !force_refresh
    &&& elapsed_secs matches Some(e) && e < FRESHNESS_SECS
}

/// Decides whether the cached listing may be served, from the file's age in
/// whole seconds (`None`: no cache file). Filesystem errors while probing are
/// the caller's to surface; they never reach this decision.
pub fn should_use_cache(force_refresh: bool, elapsed_secs: Option<u64>) -> (r: bool)
    ensures
        r == cache_fresh(force_refresh, elapsed_secs),
{
    if force_refresh {
        return false;
    }
    match elapsed_secs {
        Some(e) => e < FRESHNESS_SECS,
        None => false,
    }
}

/// A forced refresh never serves the cache, whatever the file's age.
pub proof fn lemma_force_refresh_bypasses_cache(elapsed_secs: Option<u64>)
    ensures
        !cache_fresh(true, elapsed_secs),
{
}

/// With a cache file present and no forced refresh, the snapshot is served
/// exactly when its age is strictly below the freshness bound; at the bound
/// itself it is stale.
pub proof fn lemma_freshness_boundary(elapsed_secs: u64)
    ensures
        cache_fresh(false, Some(elapsed_secs)) <==> elapsed_secs < FRESHNESS_SECS,
        !cache_fresh(false, Some(FRESHNESS_SECS)),
{
}

/// Order on durations given as whole seconds and subsecond nanoseconds.
pub open spec fn duration_lt(s1: u64, n1: u32, s2: u64, n2: u32) -> bool {
    s1 < s2 || (s1 == s2 && n1 < n2)
}

/// The freshness bound is a whole number of seconds, so a file age below it
/// is decided by the age's whole seconds alone: dropping the subsecond part
/// never changes the comparison.
pub proof fn lemma_whole_seconds_decide(secs: u64, nanos: u32)
    ensures
        duration_lt(secs, nanos, FRESHNESS_SECS, 0) <==> secs < FRESHNESS_SECS,
{
}

} // verus!
