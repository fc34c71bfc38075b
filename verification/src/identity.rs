//! Row identity tracking for stores without implicit row identity.
//!
//! When the underlying table assigns no implicit sequence number and its
//! declared key is not a single integer, a scan hands the host a synthetic
//! per-scan identifier for each row. This cache records which declared-key
//! tuple each synthetic identifier stands for, so that a later delete or
//! update referencing the identifier can address the real row. Entries are
//! scoped to the owning scan: a fresh scan clears the cache and restarts its
//! counter, so stale cross-scan lookups never answer.

use std::collections::HashMap;
use vstd::prelude::*;

use crate::values::RowValue;

verus! {

broadcast use vstd::std_specs::hash::group_hash_axioms;

/// The cache mapping a synthetic scan-time identifier to the declared-key
/// tuple of the row it was handed out for.
pub struct RowIdentityTracker {
    cache: HashMap<i64, Vec<RowValue>>,
}

impl RowIdentityTracker {
    /// The entries currently cached.
    pub closed spec fn entries(&self) -> Map<i64, Vec<RowValue>> {
        self.cache@
    }

    /// A fresh tracker with no cached identities.
    pub fn new() -> (t: Self)
        ensures
            t.entries() == Map::<i64, Vec<RowValue>>::empty(),
    {
        RowIdentityTracker { cache: HashMap::new() }
    }

    /// Record that `id` was handed out for the row whose declared-key tuple
    /// is `key`; a reused identifier is rebound to the new tuple.
    pub fn record(&mut self, id: i64, key: Vec<RowValue>)
        ensures
            final(self).entries() == old(self).entries().insert(id, key),
    {
        self.cache.insert(id, key);
    }

    /// The declared-key tuple that `id` was handed out for, if any.
    pub fn lookup(&self, id: i64) -> (r: Option<&Vec<RowValue>>)
        ensures
            match r {
                Some(key) => self.entries().contains_key(id) && *key == self.entries()[id],
                None => !self.entries().contains_key(id),
            },
    {
        self.cache.get(&id)
    }

    /// Drop every entry: called when the owning scan closes or restarts, so
    /// that identifiers of a finished scan can never answer a newer one.
    pub fn clear(&mut self)
        ensures
            final(self).entries() == Map::<i64, Vec<RowValue>>::empty(),
    {
        self.cache.clear();
    }
}

} // verus!
