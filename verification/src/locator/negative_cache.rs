//! A small cache of keys recently found to have no cell, so that they are
//! not looked up again and again. Entries expire after a few seconds.

use vstd::prelude::*;

verus! {

#[verifier::external_type_specification]
#[verifier::external_body]
#[verifier::reject_recursive_types(K)]
#[verifier::reject_recursive_types(V)]
#[verifier::reject_recursive_types(S)]
pub struct ExCache<K, V, S>(moka::sync::Cache<K, V, S>);

/// How many keys the cache holds at most.
pub const SIZE: u64 = 1000;

/// How long a key stays, in seconds.
pub const TTL_SECS: u64 = 5;

/// The capacity and the time to live (in seconds) a cache was built with.
pub uninterp spec fn cache_limits(c: moka::sync::Cache<String, ()>) -> (u64, u64);

/// The longest time to live `moka` accepts: a thousand years, in
/// seconds (a longer one makes `build` panic).
pub const MAX_TTL_SECS: u64 = 1000 * 365 * 24 * 3600;

/// Builds a `moka::sync::Cache` with a capacity and a time to live.
#[verifier::external_body]
fn build_cache(max_capacity: u64, ttl_secs: u64) -> (c: moka::sync::Cache<String, ()>)
    requires
        ttl_secs <= MAX_TTL_SECS,
    ensures
        cache_limits(c) == (max_capacity, ttl_secs),
{
    moka::sync::Cache::builder().max_capacity(max_capacity).time_to_live(
        std::time::Duration::from_secs(ttl_secs),
    ).build()
}

/// `Cache::insert`.
#[verifier::external_body]
fn cache_insert(cache: &moka::sync::Cache<String, ()>, key: String) {
    cache.insert(key, ());
}

/// `Cache::contains_key`. Whether a key is still there depends on the
/// time and on evictions, so nothing is promised of the answer.
#[verifier::external_body]
fn cache_contains(cache: &moka::sync::Cache<String, ()>, key: &str) -> (b: bool) {
    cache.contains_key(key)
}

/// Keys recently found to have no cell.
pub struct NegativeCache {
    cache: moka::sync::Cache<String, ()>,
}

impl NegativeCache {
    /// The capacity and the time to live of the cache.
    pub closed spec fn limits(&self) -> (u64, u64) {
        cache_limits(self.cache)
    }

    /// A cache of at most `SIZE` keys, each kept `TTL_SECS` seconds.
    pub fn new() -> (c: Self)
        ensures
            c.limits() == (SIZE, TTL_SECS),
    {
        NegativeCache { cache: build_cache(SIZE, TTL_SECS) }
    }

    /// Remembers that a key has no cell.
    pub fn insert(&self, key: &str) {
        cache_insert(&self.cache, key.to_owned());
    }

    /// Whether a key was recently found to have no cell. Entries expire,
    /// so an inserted key is not promised to be found.
    pub fn contains(&self, key: &str) -> (b: bool) {
        cache_contains(&self.cache, key)
    }
}

} // verus!
