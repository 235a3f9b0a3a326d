use vstd::prelude::*;

use crate::providers::models::{Provider, WggProduct, WggSearchProduct};
use crate::sale_resolver::{lemma_key_index, lemma_remove_key, lookup, remove_key, unique_keys};

verus! {

// ** Caches with an expiry **
//
// Products, search products and fetched sub-lists are kept per key until the last second at which they
// are valid, and a cache holds at most a given number of them: when a new key would exceed that, the
// entry inserted longest ago is evicted first. Times are seconds since the Unix epoch.

/// A cached item with the last second at which it is valid.
pub struct Timed<I> {
    pub item: I,
    pub expires: i64,
}

/// The view of a cache entry.
pub open spec fn timed_entry_view<I>(e: (String, Timed<I>)) -> (Seq<char>, Timed<I>) {
    (e.0@, e.1)
}

/// The entries after keeping `v` under `k` in a cache of `capacity` entries: any entry for `k` leaves,
/// the oldest entry leaves when the cache is full, and `v` becomes the newest.
pub open spec fn cache_insert<V>(pairs: Seq<(Seq<char>, V)>, k: Seq<char>, v: V, capacity: nat) -> Seq<
    (Seq<char>, V),
> {
    let rest = remove_key(pairs, k);
    if rest.len() >= capacity {
        rest.drop_first().push((k, v))
    } else {
        rest.push((k, v))
    }
}

/// What a cache gives for an entry at `now`: its item while `now` is not past its expiry.
pub open spec fn valid_item<I>(entry: Option<Timed<I>>, now: int) -> Option<I> {
    match entry {
        Some(t) => if now <= t.expires {
            Some(t.item)
        } else {
            None
        },
        None => None,
    }
}

/// Items by key, each with the last second at which it is valid, at most `capacity` of them, from the
/// oldest inserted to the newest.
pub struct TimedCache<I> {
    entries: Vec<(String, Timed<I>)>,
    capacity: usize,
}

impl<I> TimedCache<I> {
    /// The entries, from the oldest inserted to the newest.
    pub closed spec fn entries(&self) -> Seq<(Seq<char>, Timed<I>)> {
        self.entries@.map_values(|e: (String, Timed<I>)| timed_entry_view(e))
    }

    /// The most entries the cache holds.
    pub closed spec fn spec_capacity(&self) -> nat {
        self.capacity as nat
    }

    #[verifier::type_invariant]
    closed spec fn within_capacity(&self) -> bool {
        &&& unique_keys(self.entries())
        &&& self.entries().len() <= self.capacity
        &&& self.capacity > 0
    }

    /// An empty cache for at most `capacity` entries.
    pub fn new(capacity: usize) -> (res: TimedCache<I>)
        requires
            capacity > 0,
        ensures
            res.entries().len() == 0,
            res.spec_capacity() == capacity,
    {
        let res = TimedCache { entries: Vec::new(), capacity };
        proof {
            assert(res.entries() =~= Seq::<(Seq<char>, Timed<I>)>::empty());
        }
        res
    }

    /// The most entries the cache holds.
    pub fn capacity(&self) -> (res: usize)
        ensures
            res == self.spec_capacity(),
            res > 0,
    {
        proof {
            use_type_invariant(self);
        }
        self.capacity
    }

    /// The number of entries.
    pub fn len(&self) -> (res: usize)
        ensures
            res == self.entries().len(),
    {
        self.entries.len()
    }

    fn find(&self, key: &str) -> (res: Option<usize>)
        ensures
            res matches Some(i) ==> i < self.entries().len() && self.entries()[i as int].0 == key@ && lookup(
                self.entries(),
                key@,
            ) == Some(self.entries()[i as int].1),
            res is None ==> lookup(self.entries(), key@) is None,
    {
        let ghost ev = self.entries();
        proof {
            lemma_key_index(ev, key@);
        }
        let k = crate::text::chars_of(key);
        let mut n = self.entries.len();
        proof {
            assert(ev.take(n as int) =~= ev);
        }
        while n > 0
            invariant
                n <= self.entries.len(),
                ev == self.entries(),
                k@ == key@,
                lookup(ev, key@) == lookup(ev.take(n as int), key@),
            decreases n,
        {
            let entry_key = crate::text::chars_of(self.entries[n - 1].0.as_str());
            proof {
                assert(ev.take(n as int).last() == timed_entry_view(self.entries@[n - 1]));
                assert(ev.take(n as int).drop_last() =~= ev.take(n - 1));
            }
            if crate::text::chars_eq(&entry_key, &k) {
                return Some(n - 1);
            }
            n = n - 1;
        }
        None
    }

    /// The item under `key` while it is valid at `now`.
    pub fn get_at(&self, key: &str, now: i64) -> (res: Option<&I>)
        ensures
            match valid_item(lookup(self.entries(), key@), now as int) {
                Some(item) => res == Some(&item),
                None => res is None,
            },
    {
        match self.find(key) {
            Some(i) => {
                let entry = &self.entries[i].1;
                proof {
                    assert(self.entries()[i as int].1 == *entry);
                }
                if now <= entry.expires {
                    Some(&entry.item)
                } else {
                    None
                }
            },
            None => None,
        }
    }

    /// Remove the entry for `key`.
    pub fn remove(&mut self, key: &str)
        ensures
            final(self).entries() == remove_key(old(self).entries(), key@),
            final(self).spec_capacity() == old(self).spec_capacity(),
    {
        proof {
            use_type_invariant(&*self);
            lemma_remove_key(self.entries(), key@, key@);
            self.entries().lemma_filter_len(|e: (Seq<char>, Timed<I>)| e.0 != key@);
        }
        let ghost before = self.entries();
        let mut kept: Vec<(String, Timed<I>)> = Vec::new();
        let mut rest: Vec<(String, Timed<I>)> = Vec::new();
        std::mem::swap(&mut rest, &mut self.entries);
        let k = crate::text::chars_of(key);
        let mut i: usize = 0;
        let ghost total = rest.len();
        proof {
            assert(before.skip(0) =~= before);
            assert(remove_key(before.take(0), key@) =~= Seq::<(Seq<char>, Timed<I>)>::empty()) by {
                reveal(Seq::filter);
            }
            assert(kept@.map_values(|e: (String, Timed<I>)| timed_entry_view(e)) =~= Seq::<
                (Seq<char>, Timed<I>),
            >::empty());
        }
        while rest.len() > 0
            invariant
                i + rest.len() == total,
                total == before.len(),
                k@ == key@,
                rest@.map_values(|e: (String, Timed<I>)| timed_entry_view(e)) == before.skip(i as int),
                kept@.map_values(|e: (String, Timed<I>)| timed_entry_view(e)) == remove_key(
                    before.take(i as int),
                    key@,
                ),
            decreases rest.len(),
        {
            let ghost olds = rest@;
            let e = rest.remove(0);
            proof {
                reveal(Seq::filter);
                assert(rest@ =~= olds.drop_first());
                assert(before.skip(i as int)[0] == timed_entry_view(e));
                assert(rest@.map_values(|e: (String, Timed<I>)| timed_entry_view(e)) =~= olds.map_values(
                    |e: (String, Timed<I>)| timed_entry_view(e),
                ).drop_first());
                assert(before.skip(i + 1) =~= before.skip(i as int).drop_first());
                assert(before.take(i + 1).drop_last() =~= before.take(i as int));
                assert(before.take(i + 1).last() == before[i as int]);
            }
            let entry_key = crate::text::chars_of(e.0.as_str());
            let ghost prev = kept@;
            if !crate::text::chars_eq(&entry_key, &k) {
                kept.push(e);
                proof {
                    assert(kept@.map_values(|e: (String, Timed<I>)| timed_entry_view(e)) =~= prev.map_values(
                        |e: (String, Timed<I>)| timed_entry_view(e),
                    ).push(timed_entry_view(e)));
                }
            }
            i = i + 1;
        }
        proof {
            assert(before.take(i as int) =~= before);
        }
        self.entries = kept;
    }

    /// Keep `item` under `key` until the second `expires`, as the newest entry; the entry inserted
    /// longest ago leaves when the cache is full. Whether an entry for `key` was there before is
    /// returned.
    pub fn insert(&mut self, key: String, item: I, expires: i64) -> (res: bool)
        ensures
            res == lookup(old(self).entries(), key@) is Some,
            final(self).entries() == cache_insert(
                old(self).entries(),
                key@,
                Timed { item, expires },
                old(self).spec_capacity(),
            ),
            final(self).spec_capacity() == old(self).spec_capacity(),
    {
        let ghost before = self.entries();
        let ghost kv = key@;
        let ghost v = Timed { item, expires };
        let was_there = self.find(key.as_str()).is_some();
        self.remove(key.as_str());
        proof {
            use_type_invariant(&*self);
            lemma_remove_key(before, kv, kv);
        }
        let ghost rest = self.entries();
        let mut entries: Vec<(String, Timed<I>)> = Vec::new();
        std::mem::swap(&mut entries, &mut self.entries);
        proof {
            assert(entries@.map_values(|e: (String, Timed<I>)| timed_entry_view(e)) == rest);
        }
        if entries.len() >= self.capacity {
            let ghost all = entries@;
            entries.remove(0);
            proof {
                assert(entries@ =~= all.drop_first());
                assert(entries@.map_values(|e: (String, Timed<I>)| timed_entry_view(e)) =~= rest.drop_first());
            }
        }
        let ghost mid = entries@.map_values(|e: (String, Timed<I>)| timed_entry_view(e));
        let ghost mid_raw = entries@;
        entries.push((key, Timed { item, expires }));
        proof {
            assert(entries@.map_values(|e: (String, Timed<I>)| timed_entry_view(e)) =~= mid.push((kv, v)));
            assert(mid.len() <= rest.len());
            assert(mid.len() < rest.len() ==> mid =~= rest.drop_first());
            assert(mid.len() == rest.len() ==> mid =~= rest);
        }
        let ghost fin = entries@.map_values(|e: (String, Timed<I>)| timed_entry_view(e));
        proof {
            assert(forall|j: int| 0 <= j < rest.len() ==> rest[j].0 != kv) by {
                assert forall|j: int| 0 <= j < rest.len() implies rest[j].0 != kv by {
                    if rest[j].0 == kv {
                        lemma_lookup_has(rest, j);
                    }
                }
            }
            assert forall|a: int, b: int| 0 <= a < b < fin.len() implies fin[a].0 != fin[b].0 by {
                if b == fin.len() - 1 {
                    if mid.len() < rest.len() {
                        assert(mid[a] == rest[a + 1]);
                    } else {
                        assert(mid[a] == rest[a]);
                    }
                } else if mid.len() < rest.len() {
                    assert(mid[a] == rest[a + 1]);
                    assert(mid[b] == rest[b + 1]);
                } else {
                    assert(mid[a] == rest[a]);
                    assert(mid[b] == rest[b]);
                }
            }
        }
        self.entries = entries;
        was_there
    }

    /// Remove every entry.
    pub fn clear(&mut self)
        ensures
            final(self).entries().len() == 0,
            final(self).spec_capacity() == old(self).spec_capacity(),
    {
        proof {
            use_type_invariant(&*self);
        }
        self.entries = Vec::new();
        proof {
            assert(self.entries() =~= Seq::<(Seq<char>, Timed<I>)>::empty());
        }
    }
}

/// A key with an entry has a value.
proof fn lemma_lookup_has<V>(pairs: Seq<(Seq<char>, V)>, j: int)
    requires
        0 <= j < pairs.len(),
    ensures
        lookup(pairs, pairs[j].0) is Some,
    decreases pairs.len(),
{
    if pairs.last().0 != pairs[j].0 {
        assert(j < pairs.len() - 1);
        assert(pairs.drop_last()[j] == pairs[j]);
        lemma_lookup_has(pairs.drop_last(), j);
    }
}

/// The item that an insertion keeps is found under its key until its expiry, and the entries hold no
/// more than the capacity.
pub proof fn lemma_cache_insert<V>(pairs: Seq<(Seq<char>, V)>, k: Seq<char>, v: V, capacity: nat, other: Seq<char>)
    requires
        capacity > 0,
        pairs.len() <= capacity,
    ensures
        lookup(cache_insert(pairs, k, v, capacity), k) == Some(v),
        cache_insert(pairs, k, v, capacity).len() <= capacity,
        other != k && remove_key(pairs, k).len() < capacity ==> lookup(cache_insert(pairs, k, v, capacity), other)
            == lookup(pairs, other),
{
    lemma_remove_key(pairs, k, other);
    pairs.lemma_filter_len(|e: (Seq<char>, V)| e.0 != k);
    let c = cache_insert(pairs, k, v, capacity);
    assert(c.drop_last() =~= (if remove_key(pairs, k).len() >= capacity {
        remove_key(pairs, k).drop_first()
    } else {
        remove_key(pairs, k)
    }));
}

// ** The product cache **

/// One cache per provider.
pub struct ProviderCaches<I> {
    pub picnic: TimedCache<I>,
    pub jumbo: TimedCache<I>,
}

impl<I> ProviderCaches<I> {
    /// The entries of `provider`.
    pub open spec fn of(&self, provider: Provider) -> Seq<(Seq<char>, Timed<I>)> {
        match provider {
            Provider::Picnic => self.picnic.entries(),
            Provider::Jumbo => self.jumbo.entries(),
        }
    }

    /// The capacity of each provider's cache.
    pub open spec fn capacity(&self) -> nat {
        self.picnic.spec_capacity()
    }

    /// Whether both caches have the same positive capacity.
    pub open spec fn same_capacity(&self) -> bool {
        self.picnic.spec_capacity() == self.jumbo.spec_capacity() && self.picnic.spec_capacity() > 0
    }

    /// Empty caches of `capacity` entries each.
    pub fn new(capacity: usize) -> (res: ProviderCaches<I>)
        requires
            capacity > 0,
        ensures
            res.same_capacity(),
            res.capacity() == capacity,
            res.of(Provider::Picnic).len() == 0,
            res.of(Provider::Jumbo).len() == 0,
    {
        ProviderCaches { picnic: TimedCache::new(capacity), jumbo: TimedCache::new(capacity) }
    }

    /// The item of `provider` under `key` while it is valid at `now`.
    pub fn get_at(&self, provider: Provider, key: &str, now: i64) -> (res: Option<&I>)
        ensures
            match valid_item(lookup(self.of(provider), key@), now as int) {
                Some(item) => res == Some(&item),
                None => res is None,
            },
    {
        match provider {
            Provider::Picnic => self.picnic.get_at(key, now),
            Provider::Jumbo => self.jumbo.get_at(key, now),
        }
    }

    /// Whether `provider` keeps an entry under `key`, valid or not.
    pub fn has_key(&self, provider: Provider, key: &str) -> (res: bool)
        ensures
            res == lookup(self.of(provider), key@) is Some,
    {
        self.get_at(provider, key, i64::MIN).is_some()
    }

    /// Keep `item` of `provider` under `key` until the second `expires`, see [TimedCache::insert].
    pub fn insert(&mut self, provider: Provider, key: String, item: I, expires: i64)
        requires
            old(self).same_capacity(),
        ensures
            final(self).same_capacity(),
            final(self).capacity() == old(self).capacity(),
            final(self).of(provider) == cache_insert(
                old(self).of(provider),
                key@,
                Timed { item, expires },
                old(self).capacity(),
            ),
            forall|q: Provider| q != provider ==> final(self).of(q) == old(self).of(q),
    {
        match provider {
            Provider::Picnic => {
                self.picnic.insert(key, item, expires);
            },
            Provider::Jumbo => {
                self.jumbo.insert(key, item, expires);
            },
        }
    }

    /// Remove the entry of `provider` under `key`.
    pub fn remove(&mut self, provider: Provider, key: &str)
        requires
            old(self).same_capacity(),
        ensures
            final(self).same_capacity(),
            final(self).capacity() == old(self).capacity(),
            final(self).of(provider) == remove_key(old(self).of(provider), key@),
            forall|q: Provider| q != provider ==> final(self).of(q) == old(self).of(q),
    {
        match provider {
            Provider::Picnic => self.picnic.remove(key),
            Provider::Jumbo => self.jumbo.remove(key),
        }
    }
}

/// What the product cache holds for a search product.
pub enum SearchProductHit<'a> {
    /// A cached search product.
    Search(&'a WggSearchProduct),
    /// No search product is cached under the id, but a full product is.
    Full(&'a WggProduct),
    /// Nothing valid.
    Miss,
}

/// Full products and search products of each provider, each kept for `ttl` seconds after it was
/// inserted, at most `max_products` of each kind per provider (the oldest leaves first).
pub struct WggProviderCache {
    full_products: ProviderCaches<WggProduct>,
    search_products: ProviderCaches<WggSearchProduct>,
    ttl: i64,
}

impl WggProviderCache {
    /// The full products of `provider`.
    pub closed spec fn products(&self, provider: Provider) -> Seq<(Seq<char>, Timed<WggProduct>)> {
        self.full_products.of(provider)
    }

    /// The search products of `provider`.
    pub closed spec fn search_products(&self, provider: Provider) -> Seq<(Seq<char>, Timed<WggSearchProduct>)> {
        self.search_products.of(provider)
    }

    /// How long an entry is kept, in seconds.
    pub closed spec fn spec_ttl(&self) -> int {
        self.ttl as int
    }

    /// The most entries of each kind per provider.
    pub closed spec fn max_products(&self) -> nat {
        self.full_products.capacity()
    }

    #[verifier::type_invariant]
    closed spec fn caches_agree(&self) -> bool {
        &&& self.full_products.same_capacity()
        &&& self.search_products.same_capacity()
        &&& self.search_products.capacity() == self.full_products.capacity()
        &&& self.ttl > 0
    }

    /// An empty cache keeping entries for `ttl` seconds, at most `max_products` of each kind per
    /// provider.
    pub fn new(ttl: i64, max_products: usize) -> (res: WggProviderCache)
        requires
            ttl > 0,
            max_products > 0,
        ensures
            res.spec_ttl() == ttl,
            res.max_products() == max_products,
            forall|p: Provider| res.products(p).len() == 0 && res.search_products(p).len() == 0,
    {
        WggProviderCache {
            full_products: ProviderCaches::new(max_products),
            search_products: ProviderCaches::new(max_products),
            ttl,
        }
    }

    /// The full product `id` of `provider` while it is valid at `now`.
    pub fn get_product_at(&self, provider: Provider, id: &str, now: i64) -> (res: Option<&WggProduct>)
        ensures
            match valid_item(lookup(self.products(provider), id@), now as int) {
                Some(item) => res == Some(&item),
                None => res is None,
            },
    {
        self.full_products.get_at(provider, id, now)
    }

    /// The search product `id` of `provider` at `now`: from the search products when one was kept
    /// under the id (valid or not), else from the full products.
    pub fn get_search_product_at(&self, provider: Provider, id: &str, now: i64) -> (res: SearchProductHit<'_>)
        ensures
            lookup(self.search_products(provider), id@) is Some ==> match valid_item(
                lookup(self.search_products(provider), id@),
                now as int,
            ) {
                Some(item) => res == SearchProductHit::Search(&item),
                None => res is Miss,
            },
            lookup(self.search_products(provider), id@) is None ==> match valid_item(
                lookup(self.products(provider), id@),
                now as int,
            ) {
                Some(item) => res == SearchProductHit::Full(&item),
                None => res is Miss,
            },
    {
        if self.search_products.has_key(provider, id) {
            match self.search_products.get_at(provider, id, now) {
                Some(p) => SearchProductHit::Search(p),
                None => SearchProductHit::Miss,
            }
        } else {
            match self.full_products.get_at(provider, id, now) {
                Some(p) => SearchProductHit::Full(p),
                None => SearchProductHit::Miss,
            }
        }
    }

    /// Keep a full product of `provider`, inserted at `now`, under its id.
    pub fn insert_product_at(&mut self, provider: Provider, product: WggProduct, now: i64)
        requires
            now + old(self).spec_ttl() <= i64::MAX,
        ensures
            final(self).products(provider) == cache_insert(
                old(self).products(provider),
                product.id@,
                Timed { item: product, expires: (now + old(self).spec_ttl() - 1) as i64 },
                old(self).max_products(),
            ),
            forall|q: Provider| q != provider ==> final(self).products(q) == old(self).products(q),
            forall|q: Provider| final(self).search_products(q) == old(self).search_products(q),
            final(self).spec_ttl() == old(self).spec_ttl(),
            final(self).max_products() == old(self).max_products(),
    {
        proof {
            use_type_invariant(&*self);
        }
        let key = product.id.clone();
        let expires = now + self.ttl - 1;
        let mut caches = ProviderCaches::new(self.full_products.picnic.capacity());
        std::mem::swap(&mut caches, &mut self.full_products);
        caches.insert(provider, key, product, expires);
        self.full_products = caches;
    }

    /// Keep a search product of `provider`, inserted at `now`, under its id.
    pub fn insert_search_product_at(&mut self, provider: Provider, product: WggSearchProduct, now: i64)
        requires
            now + old(self).spec_ttl() <= i64::MAX,
        ensures
            final(self).search_products(provider) == cache_insert(
                old(self).search_products(provider),
                product.id@,
                Timed { item: product, expires: (now + old(self).spec_ttl() - 1) as i64 },
                old(self).max_products(),
            ),
            forall|q: Provider| q != provider ==> final(self).search_products(q) == old(self).search_products(q),
            forall|q: Provider| final(self).products(q) == old(self).products(q),
            final(self).spec_ttl() == old(self).spec_ttl(),
            final(self).max_products() == old(self).max_products(),
    {
        proof {
            use_type_invariant(&*self);
        }
        let key = product.id.clone();
        let expires = now + self.ttl - 1;
        let mut caches = ProviderCaches::new(self.full_products.picnic.capacity());
        std::mem::swap(&mut caches, &mut self.search_products);
        caches.insert(provider, key, product, expires);
        self.search_products = caches;
    }

    /// Drop the full product and the search product `id` of `provider` when they expired at `now`.
    pub fn invalidate_expired_at(&mut self, provider: Provider, id: &str, now: i64)
        ensures
            final(self).products(provider) == (if lookup(old(self).products(provider), id@) is Some
                && valid_item(lookup(old(self).products(provider), id@), now as int) is None {
                remove_key(old(self).products(provider), id@)
            } else {
                old(self).products(provider)
            }),
            final(self).search_products(provider) == (if lookup(old(self).search_products(provider), id@) is Some
                && valid_item(lookup(old(self).search_products(provider), id@), now as int) is None {
                remove_key(old(self).search_products(provider), id@)
            } else {
                old(self).search_products(provider)
            }),
            forall|q: Provider| q != provider ==> final(self).products(q) == old(self).products(q),
            forall|q: Provider| q != provider ==> final(self).search_products(q) == old(self).search_products(q),
            final(self).spec_ttl() == old(self).spec_ttl(),
            final(self).max_products() == old(self).max_products(),
    {
        proof {
            use_type_invariant(&*self);
        }
        if self.full_products.has_key(provider, id) && self.full_products.get_at(provider, id, now).is_none() {
            let mut caches = ProviderCaches::new(self.full_products.picnic.capacity());
            std::mem::swap(&mut caches, &mut self.full_products);
            caches.remove(provider, id);
            self.full_products = caches;
        }
        if self.search_products.has_key(provider, id) && self.search_products.get_at(provider, id, now).is_none() {
            let mut caches = ProviderCaches::new(self.full_products.picnic.capacity());
            std::mem::swap(&mut caches, &mut self.search_products);
            caches.remove(provider, id);
            self.search_products = caches;
        }
    }
}

} // verus!
