//! Freshness of the playlist and video cache.
use vstd::prelude::*;

verus! {

/// How long a cached playlist or video stays fresh: one day, in seconds.
pub const PLAYLIST_CACHE_TTL_SECS: u64 = 86400;

/// The age of an entry fetched at `fetched_at`, seen at `now` (zero when the
/// fetch time lies in the future).
pub open spec fn cache_age(fetched_at: u64, now: u64) -> int {
    if now > fetched_at {
        now - fetched_at
    } else {
        0
    }
}

/// Whether a cache entry fetched at `fetched_at` is still fresh at `now`:
/// younger than a day.
pub fn cache_is_fresh(fetched_at: u64, now: u64) -> (fresh: bool)
    ensures
        fresh == (cache_age(fetched_at, now) < PLAYLIST_CACHE_TTL_SECS),
{
    now.saturating_sub(fetched_at) < PLAYLIST_CACHE_TTL_SECS
}

/// The age of a cache entry in whole minutes.
pub fn cache_age_minutes(fetched_at: u64, now: u64) -> (mins: u64)
    ensures
        mins == cache_age(fetched_at, now) / 60,
{
    now.saturating_sub(fetched_at) / 60
}

} // verus!
