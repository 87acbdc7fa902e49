use vstd::prelude::*;
use crate::catalog::Catalog;

verus! {

/// What the cache's bookkeeping says: whether its slot holds a snapshot, and how many
/// times it has asked the provider for one.
pub struct CacheCounter {
    pub filled: bool,
    pub provider_calls: nat,
}

impl CacheCounter {
    /// A load asks the provider only when the slot is empty, and always leaves it filled.
    pub open spec fn after_load(self) -> CacheCounter {
        CacheCounter {
            filled: true,
            provider_calls: if self.filled {
                self.provider_calls
            } else {
                self.provider_calls + 1
            },
        }
    }

    pub open spec fn after_invalidate(self) -> CacheCounter {
        CacheCounter { filled: false, ..self }
    }

    /// The bookkeeping after `n` loads in a row.
    pub open spec fn after_loads(self, n: nat) -> CacheCounter
        decreases n,
    {
        if n == 0 {
            self
        } else {
            self.after_load().after_loads((n - 1) as nat)
        }
    }
}

/// A single slot holding the most recently loaded catalog snapshot. It is replaced
/// whole, and emptied only on request.
pub struct CatalogCache {
    slot: Option<Catalog>,
    provider_calls: Ghost<nat>,
}

impl CatalogCache {
    pub closed spec fn slot(&self) -> Option<Catalog> {
        self.slot
    }

    pub closed spec fn counter(&self) -> CacheCounter {
        CacheCounter { filled: self.slot is Some, provider_calls: self.provider_calls@ }
    }

    /// The bookkeeping says the slot is filled exactly when it holds a snapshot.
    pub proof fn lemma_filled_iff_loaded(&self)
        ensures
            self.counter().filled <==> self.slot() is Some,
    {
    }

    pub fn new() -> (r: CatalogCache)
        ensures
            r.slot() is None,
            r.counter() == (CacheCounter { filled: false, provider_calls: 0 }),
    {
        CatalogCache { slot: None, provider_calls: Ghost(0) }
    }

    /// Fills the slot from `provider` if it is empty; a filled slot is kept as it is and
    /// the provider is not called.
    pub fn load<F: FnOnce(bool) -> Catalog>(&mut self, validate: bool, provider: F)
        requires
            old(self).slot() is None ==> provider.requires((validate,)),
        ensures
            final(self).counter() == old(self).counter().after_load(),
            old(self).slot() is Some ==> final(self).slot() == old(self).slot(),
            old(self).slot() is None ==> (final(self).slot() matches Some(c) && provider.ensures(
                (validate,),
                c,
            )),
    {
        if self.slot.is_none() {
            let snapshot = provider(validate);
            self.slot = Some(snapshot);
            self.provider_calls = Ghost(self.provider_calls@ + 1);
        }
    }

    /// The cached snapshot, if the slot is filled.
    pub fn get(&self) -> (r: Option<&Catalog>)
        ensures
            r is Some <==> self.slot() is Some,
            r matches Some(c) ==> self.slot() == Some(*c),
    {
        match &self.slot {
            Some(c) => Some(c),
            None => None,
        }
    }

    /// Empties the slot, so that the next load asks the provider again.
    pub fn invalidate(&mut self)
        ensures
            final(self).slot() is None,
            final(self).counter() == old(self).counter().after_invalidate(),
    {
        self.slot = None;
    }
}

/// Empties the catalog cache.
pub fn clear_tabs_cache(cache: &mut CatalogCache)
    ensures
        final(cache).slot() is None,
        final(cache).counter() == old(cache).counter().after_invalidate(),
{
    cache.invalidate();
}

/// Loads on a filled cache never ask the provider; after an invalidation, any positive
/// number of loads asks it exactly once.
pub proof fn lemma_one_fetch_per_invalidation(c: CacheCounter, n: nat)
    ensures
        c.filled ==> c.after_loads(n).provider_calls == c.provider_calls,
        n > 0 ==> c.after_invalidate().after_loads(n).provider_calls == c.provider_calls + 1,
    decreases n,
{
    if n > 0 {
        lemma_one_fetch_per_invalidation(c, (n - 1) as nat);
        let d = c.after_invalidate().after_load();
        assert(d.filled && d.provider_calls == c.provider_calls + 1);
        lemma_filled_loads_keep_calls(d, (n - 1) as nat);
        if c.filled {
            lemma_filled_loads_keep_calls(c, n);
        }
    }
}

proof fn lemma_filled_loads_keep_calls(c: CacheCounter, n: nat)
    requires
        c.filled,
    ensures
        c.after_loads(n).provider_calls == c.provider_calls,
    decreases n,
{
    if n > 0 {
        assert(c.after_load() == c);
        lemma_filled_loads_keep_calls(c.after_load(), (n - 1) as nat);
    }
}

} // verus!
