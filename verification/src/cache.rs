//! Answers kept for a while, so that a repeated search need not ask again.

use std::time::{SystemTime, UNIX_EPOCH};
use vstd::prelude::*;

verus! {

/// How long an answer is good for unless the caller says otherwise: seven
/// days, in seconds.
pub const DEFAULT_CACHE_TTL_SECS: i64 = 7 * 24 * 3600;

/// The answers of one provider to one query, as they were stored.
#[derive(Debug)]
pub struct CachedResult {
    pub source: String,
    pub results_json: String,
    /// When the answers were stored, in seconds since the epoch.
    pub cached_at: i64,
}

/// Reads the clock with `SystemTime::now` and hands out the seconds since the
/// epoch. Nothing is claimed of the result.
#[verifier::external_body]
pub(crate) fn now_secs() -> (now: i64) {
    SystemTime::now().duration_since(UNIX_EPOCH).unwrap_or_default().as_secs() as i64
}

impl CachedResult {
    /// Whether more than `ttl_secs` seconds lie between the storing and `now`.
    pub open spec fn expired_at(&self, now: int, ttl_secs: int) -> bool {
        now - self.cached_at > ttl_secs
    }

    /// Whether the answers are too old at the time `now`.
    pub fn is_expired_at(&self, now: i64, ttl_secs: i64) -> (expired: bool)
        ensures
            expired == self.expired_at(now as int, ttl_secs as int),
    {
        let age: i128 = now as i128 - self.cached_at as i128;
        age > ttl_secs as i128
    }

    /// Whether the answers are too old by the clock of this machine.
    pub fn is_expired(&self, ttl_secs: i64) -> (expired: bool)
        ensures
            exists|now: i64| expired == #[trigger] self.expired_at(now as int, ttl_secs as int),
    {
        let now = now_secs();
        let expired = self.is_expired_at(now, ttl_secs);
        proof {
            assert(expired == self.expired_at(now as int, ttl_secs as int));
        }
        expired
    }
}

} // verus!
