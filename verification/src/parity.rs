//! A state backend that caches nothing.
//!
//! The account-state layer accepts a backend for caching accounts and
//! code. Storage here goes through the runtime's own tree instead, so the
//! backend is a stub: writes are dropped and every lookup misses.

use vstd::prelude::*;

verus! {

/// Null backend for the account-state layer: it never holds a cache entry.
pub struct NullBackend;

impl NullBackend {
    /// Record an account in the cache: dropped.
    pub fn add_to_account_cache(&mut self, _address: &Vec<u8>, _account: &Vec<u8>)
        ensures
            *final(self) == *old(self),
    {
    }

    /// Record code in the cache: dropped.
    pub fn cache_code(&self, _hash: &Vec<u8>, _code: &Vec<u8>) {
    }

    /// Look an account up in the cache: always a miss.
    pub fn get_cached_account(&self, _address: &Vec<u8>) -> (r: Option<Vec<u8>>)
        ensures
            r is None,
    {
        None
    }

    /// Look code up in the cache: always a miss.
    pub fn get_cached_code(&self, _hash: &Vec<u8>) -> (r: Option<Vec<u8>>)
        ensures
            r is None,
    {
        None
    }
}

} // verus!
