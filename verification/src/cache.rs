//! The render cache of uploaded assets: the uploaded form of each asset by
//! handle, dropped when the store reports the asset changed, and a count
//! of lookups that had to upload.

use crate::store::{Store, StoreType};
use std::collections::HashMap;
use vstd::prelude::*;

verus! {

broadcast use vstd::std_specs::hash::group_hash_axioms;

/// Every how many cache misses a warning is due.
pub const MISS_WARNING_INTERVAL: usize = 1000;

/// Uploaded assets by handle number.
pub struct Cache<Hot> {
    data: HashMap<u32, Hot>,
    cache_misses: usize,
}

/// The miss count after one more miss; the counter wraps around.
pub open spec fn next_miss_count(n: usize) -> usize {
    if n == usize::MAX {
        0
    } else {
        (n + 1) as usize
    }
}

/// `m` without the keys in `ids`.
pub open spec fn without_keys<Hot>(m: Map<u32, Hot>, ids: Seq<u32>) -> Map<u32, Hot> {
    m.restrict(m.dom().difference(ids.to_set()))
}

impl<Hot> Cache<Hot> {
    /// The uploaded assets by handle number.
    pub closed spec fn entries(&self) -> Map<u32, Hot> {
        self.data@
    }

    /// How many lookups had to upload.
    pub closed spec fn misses(&self) -> usize {
        self.cache_misses
    }

    /// An empty cache.
    pub fn new() -> (r: Cache<Hot>)
        ensures
            r.entries() == Map::<u32, Hot>::empty(),
            r.misses() == 0,
    {
        Cache { data: HashMap::new(), cache_misses: 0 }
    }

    /// The uploaded form of asset `id`, if cached.
    pub fn get(&self, id: u32) -> (r: Option<&Hot>)
        ensures
            match r {
                Some(v) => self.entries().contains_key(id) && *v == self.entries()[id],
                None => !self.entries().contains_key(id),
            },
    {
        self.data.get(&id)
    }

    /// Caches the uploaded form of asset `id`.
    pub fn insert(&mut self, id: u32, hot: Hot)
        ensures
            final(self).entries() == old(self).entries().insert(id, hot),
            final(self).misses() == old(self).misses(),
    {
        self.data.insert(id, hot);
    }

    /// Counts a lookup that had to upload; returns whether a warning about
    /// misses is due, every thousandth miss.
    pub fn record_miss(&mut self) -> (warn: bool)
        ensures
            final(self).misses() == next_miss_count(old(self).misses()),
            warn == (next_miss_count(old(self).misses()) % MISS_WARNING_INTERVAL == 0),
            final(self).entries() == old(self).entries(),
    {
        self.cache_misses = if self.cache_misses == usize::MAX { 0 } else { self.cache_misses + 1 };
        self.cache_misses % MISS_WARNING_INTERVAL == 0
    }

    /// Drops the uploaded form of every asset the store reports changed, and
    /// clears that report; returns how many were reported.
    pub fn refresh_dirty<T: StoreType>(&mut self, store: &mut Store<T>) -> (r: usize)
        requires
            old(store).wf(),
        ensures
            r == old(store).dirty_ids().len(),
            final(self).entries() == without_keys(old(self).entries(), old(store).dirty_ids()),
            final(self).misses() == old(self).misses(),
            final(store).wf(),
            final(store).contents() == old(store).contents(),
            final(store).dirty_ids() == Seq::<u32>::empty(),
    {
        let dirty = store.pop_dirty();
        let mut i: usize = 0;
        while i < dirty.len()
            invariant
                0 <= i <= dirty@.len(),
                self.misses() == old(self).misses(),
                self.entries() == without_keys(old(self).entries(), dirty@.take(i as int)),
            decreases dirty@.len() - i,
        {
            let ghost before = self.entries();
            self.data.remove(&dirty[i]);
            proof {
                assert(dirty@.take(i + 1).to_set() =~= dirty@.take(i as int).to_set().insert(dirty@[i as int])) by {
                    assert(dirty@.take(i + 1) =~= dirty@.take(i as int).push(dirty@[i as int]));
                    dirty@.take(i as int).lemma_push_to_set_commute(dirty@[i as int]);
                }
                assert(self.entries() =~= without_keys(old(self).entries(), dirty@.take(i + 1)));
            }
            i += 1;
        }
        assert(dirty@.take(dirty@.len() as int) =~= dirty@);
        dirty.len()
    }
}

/// After a refresh no asset the store reported as changed is cached, and
/// every other cached asset is kept as it was.
pub proof fn law_refresh_drops_changed<Hot>(m: Map<u32, Hot>, dirty: Seq<u32>, id: u32)
    ensures
        dirty.contains(id) ==> !without_keys(m, dirty).contains_key(id),
        !dirty.contains(id) && m.contains_key(id) ==> without_keys(m, dirty).contains_key(id) && without_keys(
            m,
            dirty,
        )[id] == m[id],
{
    if dirty.contains(id) {
        assert(dirty.to_set().contains(id));
    }
}

} // verus!
