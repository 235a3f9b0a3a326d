use vstd::prelude::*;

use crate::caching::{cache_insert, valid_item, Timed, TimedCache};
use crate::dates::{datetime_max, datetime_min, now_timestamp};
use crate::providers::common_bridge::{
    day_seconds, get_guessed_sale_validity, max_timestamp, min_timestamp, week_start,
};
use crate::providers::models::{
    ProductIdT, SaleValidity, WggDecorator, WggSaleCategory, WggSaleGroupComplete, WggSaleGroupLimited,
    WggSaleItem, WggSearchProduct,
};

verus! {

// ** Cache actions **

/// Whether the cache needs reconciling after an operation.
#[derive(Copy, Clone, Debug, PartialEq, Eq, Structural)]
pub enum CacheAction {
    ReconcileCache,
    Nothing,
}

/// The combination of two actions: a reconcile when either asks for one.
pub open spec fn spec_combine(a: CacheAction, b: CacheAction) -> CacheAction {
    if a == CacheAction::ReconcileCache || b == CacheAction::ReconcileCache {
        CacheAction::ReconcileCache
    } else {
        CacheAction::Nothing
    }
}

impl CacheAction {
    /// Combine one [CacheAction] with another: so long as at least one requires some form of action,
    /// that one is picked.
    pub fn combine(&self, other: CacheAction) -> (res: CacheAction)
        ensures
            res == spec_combine(*self, other),
    {
        if let CacheAction::ReconcileCache = self {
            CacheAction::ReconcileCache
        } else if let CacheAction::ReconcileCache = other {
            CacheAction::ReconcileCache
        } else {
            CacheAction::Nothing
        }
    }
}

/// Combining actions does not depend on their order.
pub proof fn lemma_combine_commutative(a: CacheAction, b: CacheAction)
    ensures
        spec_combine(a, b) == spec_combine(b, a),
{
}

/// Combining actions does not depend on how they are grouped.
pub proof fn lemma_combine_associative(a: CacheAction, b: CacheAction, c: CacheAction)
    ensures
        spec_combine(spec_combine(a, b), c) == spec_combine(a, spec_combine(b, c)),
{
}

/// Doing nothing leaves an action as it is.
pub proof fn lemma_combine_nothing_identity(a: CacheAction)
    ensures
        spec_combine(a, CacheAction::Nothing) == a,
        spec_combine(CacheAction::Nothing, a) == a,
{
}

/// Once a reconcile is asked for, no other action takes it back.
pub proof fn lemma_combine_reconcile_absorbs(a: CacheAction)
    ensures
        spec_combine(a, CacheAction::ReconcileCache) == CacheAction::ReconcileCache,
        spec_combine(CacheAction::ReconcileCache, a) == CacheAction::ReconcileCache,
{
}

/// Combining an action with itself gives that action.
pub proof fn lemma_combine_idempotent(a: CacheAction)
    ensures
        spec_combine(a, a) == a,
{
}

// ** Cache entries **

/// A cached promotion with its expiry; times are seconds since the Unix epoch.
pub struct PromoCacheEntry<T> {
    pub item: T,
    pub inserted_at: i64,
    pub expires: i64,
}

impl<T> PromoCacheEntry<T> {
    /// Whether the entry is expired at time `now`: `now` is past its expiry.
    pub fn is_expired_at(&self, now: i64) -> (res: bool)
        ensures
            res == (now > self.expires),
    {
        now > self.expires
    }

    /// Whether the entry is expired now. The clock is read, so only what holds at some time within
    /// chrono's range is stated.
    pub fn is_expired(&self) -> (res: bool)
        ensures
            res ==> self.expires < max_timestamp(),
            !res ==> self.expires >= min_timestamp(),
    {
        let now = now_timestamp();
        self.is_expired_at(now)
    }
}

/// A cached item with the time it was inserted, in seconds since the Unix epoch.
pub struct CacheEntry<I> {
    entry: I,
    inserted_at: i64,
}

impl<I> CacheEntry<I> {
    pub closed spec fn spec_entry(&self) -> I {
        self.entry
    }

    pub closed spec fn spec_inserted_at(&self) -> i64 {
        self.inserted_at
    }

    /// The value that the entry gives at `now` with time to live `ttl`: the entry while it was inserted
    /// less than `ttl` ago, else nothing.
    pub open spec fn spec_value_at(&self, ttl: int, now: int) -> Option<I> {
        if self.spec_inserted_at() + ttl > now {
            Some(self.spec_entry())
        } else {
            None
        }
    }

    /// An entry for `entry` inserted at `inserted_at`.
    pub fn new(entry: I, inserted_at: i64) -> (res: CacheEntry<I>)
        ensures
            res.spec_entry() == entry,
            res.spec_inserted_at() == inserted_at,
    {
        CacheEntry { entry, inserted_at }
    }

    /// The `entry` value if the entry is still valid at `now` given the time to live `ttl` (in seconds):
    /// when it was inserted less than `ttl` ago.
    pub fn get_if_valid_at(self, ttl: i64, now: i64) -> (res: Option<I>)
        requires
            min_timestamp() <= self.spec_inserted_at() + ttl <= max_timestamp(),
        ensures
            res == (if self.spec_inserted_at() + ttl > now {
                Some(self.spec_entry())
            } else {
                None
            }),
    {
        if self.inserted_at + ttl > now {
            Some(self.entry)
        } else {
            None
        }
    }

    /// The `entry` value if the entry is still valid now given the time to live `ttl` (in seconds), see
    /// [CacheEntry::get_if_valid_at]. The clock is read, so the answer is stated as the one at some time
    /// within the range of chrono's `DateTime<Utc>`: an entry that stays valid past the end of that range
    /// is always returned, and one that expired before its start never is.
    pub fn get_if_valid(self, ttl: i64) -> (res: Option<I>)
        requires
            min_timestamp() <= self.spec_inserted_at() + ttl <= max_timestamp(),
        ensures
            exists|now: int|
                datetime_min() <= now <= datetime_max() && res == #[trigger] self.spec_value_at(ttl as int, now),
    {
        let now = now_timestamp();
        let ghost entry = self;
        let res = self.get_if_valid_at(ttl, now);
        proof {
            assert(res == entry.spec_value_at(ttl as int, now as int));
        }
        res
    }
}


// ** The validity of a sale **

/// The first sale validity among decorators.
pub open spec fn first_validity(ds: Seq<WggDecorator>) -> Option<SaleValidity>
    decreases ds.len(),
{
    if ds.len() == 0 {
        None
    } else {
        match ds[0] {
            WggDecorator::SaleValidity(v) => Some(v),
            _ => first_validity(ds.drop_first()),
        }
    }
}

/// The validity of a sale at time `now`: the first sale validity among its decorators, else the best
/// guess, the week of `now` (see [get_guessed_sale_validity]).
pub fn get_sale_validity_at(decorators: &Vec<WggDecorator>, now: i64) -> (res: SaleValidity)
    requires
        min_timestamp() <= now <= max_timestamp(),
    ensures
        res == (match first_validity(decorators@) {
            Some(v) => v,
            None => SaleValidity {
                valid_from: week_start(now as int) as i64,
                valid_until: (week_start(now as int) + 7 * day_seconds() - 1) as i64,
            },
        }),
{
    let mut i: usize = 0;
    proof {
        assert(decorators@.skip(0) =~= decorators@);
    }
    while i < decorators.len()
        invariant
            i <= decorators.len(),
            first_validity(decorators@) == first_validity(decorators@.skip(i as int)),
        decreases decorators.len() - i,
    {
        proof {
            assert(decorators@.skip(i as int)[0] == decorators@[i as int]);
        }
        if let WggDecorator::SaleValidity(v) = &decorators[i] {
            return *v;
        }
        proof {
            assert(decorators@.skip(i + 1) =~= decorators@.skip(i as int).drop_first());
        }
        i = i + 1;
    }
    get_guessed_sale_validity(now)
}

/// The validity of a sale, see [get_sale_validity_at]; the clock is read for the guess, so a guessed
/// validity is stated as the week of some time.
pub fn get_sale_validity(decorators: &Vec<WggDecorator>) -> (res: SaleValidity)
    ensures
        first_validity(decorators@) matches Some(v) ==> res == v,
        first_validity(decorators@) is None ==> exists|now: int|
            min_timestamp() <= now <= max_timestamp() && res.valid_from == week_start(now) && res.valid_until
                == week_start(now) + 7 * day_seconds() - 1 && res.valid_from <= now <= res.valid_until,
{
    let now = now_timestamp();
    let res = get_sale_validity_at(decorators, now);
    proof {
        if first_validity(decorators@) is None {
            assert(min_timestamp() <= now <= max_timestamp());
        }
    }
    res
}

// ** Keyed lists **

/// The value of the last entry for key `k`.
pub open spec fn lookup<V>(pairs: Seq<(Seq<char>, V)>, k: Seq<char>) -> Option<V>
    decreases pairs.len(),
{
    if pairs.len() == 0 {
        None
    } else if pairs.last().0 == k {
        Some(pairs.last().1)
    } else {
        lookup(pairs.drop_last(), k)
    }
}

/// The position of the last entry for key `k`.
pub open spec fn key_index<V>(pairs: Seq<(Seq<char>, V)>, k: Seq<char>) -> Option<nat>
    decreases pairs.len(),
{
    if pairs.len() == 0 {
        None
    } else if pairs.last().0 == k {
        Some((pairs.len() - 1) as nat)
    } else {
        key_index(pairs.drop_last(), k)
    }
}

/// Whether no key occurs twice.
pub open spec fn unique_keys<V>(pairs: Seq<(Seq<char>, V)>) -> bool {
    forall|i: int, j: int| 0 <= i < j < pairs.len() ==> pairs[i].0 != pairs[j].0
}

/// `pairs` with the value of key `k` set to `v`: replaced in place, or added at the end.
pub open spec fn upsert<V>(pairs: Seq<(Seq<char>, V)>, k: Seq<char>, v: V) -> Seq<(Seq<char>, V)> {
    match key_index(pairs, k) {
        Some(i) => pairs.update(i as int, (k, v)),
        None => pairs.push((k, v)),
    }
}

/// `pairs` without the entries for key `k`.
pub open spec fn remove_key<V>(pairs: Seq<(Seq<char>, V)>, k: Seq<char>) -> Seq<(Seq<char>, V)> {
    pairs.filter(|e: (Seq<char>, V)| e.0 != k)
}

pub proof fn lemma_key_index<V>(pairs: Seq<(Seq<char>, V)>, k: Seq<char>)
    ensures
        key_index(pairs, k) matches Some(i) ==> i < pairs.len() && pairs[i as int].0 == k && lookup(pairs, k)
            == Some(pairs[i as int].1) && forall|j: int| i < j < pairs.len() ==> pairs[j].0 != k,
        key_index(pairs, k) is None ==> lookup(pairs, k) is None && forall|j: int| 0 <= j < pairs.len() ==> pairs[j].0 != k,
    decreases pairs.len(),
{
    if pairs.len() > 0 {
        lemma_key_index(pairs.drop_last(), k);
        assert forall|j: int| 0 <= j < pairs.len() - 1 implies pairs.drop_last()[j] == pairs[j] by {}
    }
}

/// The value of a key in a list without double keys is that of any entry with that key.
pub proof fn lemma_lookup_unique<V>(pairs: Seq<(Seq<char>, V)>, i: int)
    requires
        unique_keys(pairs),
        0 <= i < pairs.len(),
    ensures
        lookup(pairs, pairs[i].0) == Some(pairs[i].1),
{
    lemma_key_index(pairs, pairs[i].0);
}

/// Setting a key gives it the new value, leaves the other keys as they were, and keeps keys unique.
pub proof fn lemma_upsert<V>(pairs: Seq<(Seq<char>, V)>, k: Seq<char>, v: V, other: Seq<char>)
    ensures
        lookup(upsert(pairs, k, v), k) == Some(v),
        other != k ==> lookup(upsert(pairs, k, v), other) == lookup(pairs, other),
        unique_keys(pairs) ==> unique_keys(upsert(pairs, k, v)),
{
    lemma_key_index(pairs, k);
    let u = upsert(pairs, k, v);
    match key_index(pairs, k) {
        Some(i) => {
            lemma_key_index(u, k);
            lemma_lookup_update(pairs, i as int, k, v, other);
        },
        None => {
            assert(u.drop_last() =~= pairs);
        },
    }
}

proof fn lemma_lookup_update<V>(pairs: Seq<(Seq<char>, V)>, i: int, k: Seq<char>, v: V, other: Seq<char>)
    requires
        0 <= i < pairs.len(),
        pairs[i].0 == k,
        forall|j: int| i < j < pairs.len() ==> pairs[j].0 != k,
    ensures
        lookup(pairs.update(i, (k, v)), k) == Some(v),
        other != k ==> lookup(pairs.update(i, (k, v)), other) == lookup(pairs, other),
    decreases pairs.len(),
{
    let u = pairs.update(i, (k, v));
    if i == pairs.len() - 1 {
        assert(u.drop_last() =~= pairs.drop_last());
    } else {
        assert(u.drop_last() =~= pairs.drop_last().update(i, (k, v)));
        lemma_lookup_update(pairs.drop_last(), i, k, v, other);
    }
}

/// Removing a key leaves no entry for it and the other keys as they were; keys stay unique.
pub proof fn lemma_remove_key<V>(pairs: Seq<(Seq<char>, V)>, k: Seq<char>, other: Seq<char>)
    ensures
        lookup(remove_key(pairs, k), k) is None,
        other != k ==> lookup(remove_key(pairs, k), other) == lookup(pairs, other),
        unique_keys(pairs) ==> unique_keys(remove_key(pairs, k)),
    decreases pairs.len(),
{
    reveal(Seq::filter);
    if pairs.len() > 0 {
        lemma_remove_key(pairs.drop_last(), k, other);
        let r = remove_key(pairs, k);
        let rd = remove_key(pairs.drop_last(), k);
        if pairs.last().0 != k {
            assert(r == rd.push(pairs.last()));
            assert(r.drop_last() =~= rd);
        } else {
            assert(r == rd);
        }
        if unique_keys(pairs) {
            assert(unique_keys(pairs.drop_last())) by {
                assert forall|i: int, j: int| 0 <= i < j < pairs.drop_last().len() implies pairs.drop_last()[i].0
                    != pairs.drop_last()[j].0 by {
                    assert(pairs.drop_last()[i] == pairs[i]);
                    assert(pairs.drop_last()[j] == pairs[j]);
                }
            }
            if pairs.last().0 != k {
                lemma_filter_keys_from(pairs.drop_last(), k, pairs.last().0);
                assert forall|i: int, j: int| 0 <= i < j < r.len() implies r[i].0 != r[j].0 by {
                    if j == r.len() - 1 {
                        assert(r[j] == pairs.last());
                        assert(r[i] == rd[i]);
                    } else {
                        assert(r[i] == rd[i]);
                        assert(r[j] == rd[j]);
                    }
                }
            }
        }
    }
}

/// Every key left after removing `k` was a key before.
proof fn lemma_filter_keys_from<V>(pairs: Seq<(Seq<char>, V)>, k: Seq<char>, absent: Seq<char>)
    requires
        forall|j: int| 0 <= j < pairs.len() ==> pairs[j].0 != absent,
    ensures
        forall|j: int| 0 <= j < remove_key(pairs, k).len() ==> remove_key(pairs, k)[j].0 != absent,
    decreases pairs.len(),
{
    reveal(Seq::filter);
    if pairs.len() > 0 {
        lemma_filter_keys_from(pairs.drop_last(), k, absent);
        let r = remove_key(pairs, k);
        let rd = remove_key(pairs.drop_last(), k);
        if pairs.last().0 != k {
            assert(r == rd.push(pairs.last()));
        } else {
            assert(r == rd);
        }
    }
}


// ** Sale infos and the index of products on sale **

/// The sale of a sub-list: its validity (seconds since the Unix epoch) and the ids of its products.
pub struct SaleInfo {
    valid_from: i64,
    valid_until: i64,
    item_ids: Vec<String>,
}

/// The view of a sale info: validity from, validity until, product ids.
pub type SaleView = (i64, i64, Seq<Seq<char>>);

impl SaleInfo {
    pub closed spec fn view(&self) -> SaleView {
        (self.valid_from, self.valid_until, self.item_ids@.map_values(|s: String| s@))
    }

    /// The sale info of `item_ids`, valid from `valid_from` until `valid_until`.
    pub fn new(valid_from: i64, valid_until: i64, item_ids: Vec<String>) -> (res: SaleInfo)
        ensures
            res.view() == (valid_from, valid_until, item_ids@.map_values(|s: String| s@)),
    {
        SaleInfo { valid_from, valid_until, item_ids }
    }

    pub fn valid_from(&self) -> (res: i64)
        ensures
            res == self.view().0,
    {
        self.valid_from
    }

    pub fn valid_until(&self) -> (res: i64)
        ensures
            res == self.view().1,
    {
        self.valid_until
    }

    /// The ids of the products on sale.
    pub fn item_ids(&self) -> (res: &Vec<String>)
        ensures
            res@.map_values(|s: String| s@) == self.view().2,
    {
        &self.item_ids
    }

    /// A copy of this sale info.
    pub fn clone_info(&self) -> (res: SaleInfo)
        ensures
            res.view() == self.view(),
    {
        let mut ids: Vec<String> = Vec::new();
        let ghost want = self.item_ids@.map_values(|s: String| s@);
        let mut i: usize = 0;
        while i < self.item_ids.len()
            invariant
                i <= self.item_ids.len(),
                want == self.item_ids@.map_values(|s: String| s@),
                ids@.map_values(|s: String| s@) == want.take(i as int),
            decreases self.item_ids.len() - i,
        {
            let id = self.item_ids[i].clone();
            let ghost prev = ids@;
            ids.push(id);
            proof {
                assert(want.take(i + 1) =~= want.take(i as int).push(id@));
                assert(ids@.map_values(|s: String| s@) =~= prev.map_values(|s: String| s@).push(id@));
            }
            i = i + 1;
        }
        proof {
            assert(want.take(self.item_ids.len() as int) =~= want);
        }
        SaleInfo { valid_from: self.valid_from, valid_until: self.valid_until, item_ids: ids }
    }
}

/// The inverted entries of one sale: each of its product ids pointing at sub-list `sid`, added to `acc`
/// one at a time.
pub open spec fn invert_ids(acc: Seq<(Seq<char>, Seq<char>)>, ids: Seq<Seq<char>>, sid: Seq<char>) -> Seq<
    (Seq<char>, Seq<char>),
>
    decreases ids.len(),
{
    if ids.len() == 0 {
        acc
    } else {
        upsert(invert_ids(acc, ids.drop_last(), sid), ids.last(), sid)
    }
}

/// The inverted index of sales: every product id pointing at the sub-list of the last sale that lists
/// it.
pub open spec fn invert(sales: Seq<(Seq<char>, SaleView)>) -> Seq<(Seq<char>, Seq<char>)>
    decreases sales.len(),
{
    if sales.len() == 0 {
        seq![]
    } else {
        invert_ids(invert(sales.drop_last()), sales.last().1.2, sales.last().0)
    }
}

/// Whether some sale lists product `p`.
pub open spec fn listed(sales: Seq<(Seq<char>, SaleView)>, p: Seq<char>) -> bool {
    exists|i: int| 0 <= i < sales.len() && (#[trigger] sales[i]).1.2.contains(p)
}

proof fn lemma_invert_ids(acc: Seq<(Seq<char>, Seq<char>)>, ids: Seq<Seq<char>>, sid: Seq<char>, p: Seq<char>)
    ensures
        unique_keys(acc) ==> unique_keys(invert_ids(acc, ids, sid)),
        ids.contains(p) ==> lookup(invert_ids(acc, ids, sid), p) == Some(sid),
        !ids.contains(p) ==> lookup(invert_ids(acc, ids, sid), p) == lookup(acc, p),
    decreases ids.len(),
{
    if ids.len() > 0 {
        lemma_invert_ids(acc, ids.drop_last(), sid, p);
        lemma_upsert(invert_ids(acc, ids.drop_last(), sid), ids.last(), sid, p);
        if ids.contains(p) && ids.last() != p {
            let i = choose|i: int| 0 <= i < ids.len() && ids[i] == p;
            assert(ids.drop_last()[i] == p);
        }
        if ids.drop_last().contains(p) {
            let i = choose|i: int| 0 <= i < ids.drop_last().len() && ids.drop_last()[i] == p;
            assert(ids[i] == p);
        }
    }
}

/// The inverted index finds exactly the products that some sale lists, each pointing at a sub-list
/// that lists it; its keys are unique.
pub proof fn lemma_invert(sales: Seq<(Seq<char>, SaleView)>, p: Seq<char>)
    ensures
        unique_keys(invert(sales)),
        lookup(invert(sales), p) is Some <==> listed(sales, p),
        lookup(invert(sales), p) matches Some(s) ==> exists|i: int|
            0 <= i < sales.len() && (#[trigger] sales[i]).0 == s && sales[i].1.2.contains(p),
    decreases sales.len(),
{
    if sales.len() > 0 {
        let rest = sales.drop_last();
        lemma_invert(rest, p);
        lemma_invert_ids(invert(rest), sales.last().1.2, sales.last().0, p);
        let last = sales.len() - 1;
        if sales.last().1.2.contains(p) {
            assert(sales[last].1.2.contains(p));
        } else {
            if listed(rest, p) {
                let i = choose|i: int| 0 <= i < rest.len() && (#[trigger] rest[i]).1.2.contains(p);
                assert(sales[i] == rest[i]);
            }
            if listed(sales, p) {
                let i = choose|i: int| 0 <= i < sales.len() && (#[trigger] sales[i]).1.2.contains(p);
                assert(rest[i] == sales[i]);
            }
            if lookup(invert(rest), p) is Some {
                let i = choose|i: int|
                    0 <= i < rest.len() && (#[trigger] rest[i]).0 == lookup(invert(rest), p).unwrap()
                        && rest[i].1.2.contains(p);
                assert(sales[i] == rest[i]);
            }
        }
    }
}

/// The products on sale, by sub-list, with the inverted index from product to sub-list.
pub struct SaleIndex {
    normal: Vec<(String, SaleInfo)>,
    inverted: Vec<(String, String)>,
}

/// The view of a sale entry.
pub open spec fn sale_entry_view(e: (String, SaleInfo)) -> (Seq<char>, SaleView) {
    (e.0@, e.1.view())
}

/// The view of an inverted entry.
pub open spec fn pointer_view(e: (String, String)) -> (Seq<char>, Seq<char>) {
    (e.0@, e.1@)
}

impl SaleIndex {
    /// The sales, by sub-list id.
    pub closed spec fn sales(&self) -> Seq<(Seq<char>, SaleView)> {
        self.normal@.map_values(|e: (String, SaleInfo)| sale_entry_view(e))
    }

    /// The inverted index, from product id to sub-list id.
    pub closed spec fn pointers(&self) -> Seq<(Seq<char>, Seq<char>)> {
        self.inverted@.map_values(|e: (String, String)| pointer_view(e))
    }

    #[verifier::type_invariant]
    closed spec fn keys_are_unique(&self) -> bool {
        unique_keys(self.sales()) && unique_keys(self.pointers())
    }

    /// An empty index.
    pub fn new() -> (res: SaleIndex)
        ensures
            res.sales().len() == 0,
            res.pointers().len() == 0,
    {
        SaleIndex { normal: Vec::new(), inverted: Vec::new() }
    }

    /// Whether the index holds sales as well as pointers, see [SaleIndex::are_valid].
    pub open spec fn are_usable(&self) -> bool {
        self.sales().len() > 0 && self.pointers().len() > 0
    }

    /// Whether the index is usable under the assumption that there are sales: it holds sales as well as
    /// pointers. It stops being so when the sales expired but were not refreshed yet.
    pub fn are_valid(&self) -> (res: bool)
        ensures
            res == self.are_usable(),
    {
        self.normal.len() > 0 && self.inverted.len() > 0
    }

    fn find_sale(&self, id: &str) -> (res: Option<usize>)
        ensures
            res matches Some(i) ==> key_index(self.sales(), id@) == Some(i as nat),
            res is None ==> key_index(self.sales(), id@) is None,
    {
        let ghost sv = self.sales();
        let k = crate::text::chars_of(id);
        let mut n = self.normal.len();
        proof {
            assert(sv.take(n as int) =~= sv);
        }
        while n > 0
            invariant
                n <= self.normal.len(),
                sv == self.sales(),
                k@ == id@,
                key_index(sv, id@) == key_index(sv.take(n as int), id@),
            decreases n,
        {
            let key = crate::text::chars_of(self.normal[n - 1].0.as_str());
            proof {
                assert(sv.take(n as int).last() == sale_entry_view(self.normal@[n - 1]));
                assert(sv.take(n as int).drop_last() =~= sv.take(n - 1));
            }
            if crate::text::chars_eq(&key, &k) {
                return Some(n - 1);
            }
            n = n - 1;
        }
        None
    }

    fn find_pointer(&self, id: &str) -> (res: Option<usize>)
        ensures
            res matches Some(i) ==> key_index(self.pointers(), id@) == Some(i as nat),
            res is None ==> key_index(self.pointers(), id@) is None,
    {
        let ghost pv = self.pointers();
        let k = crate::text::chars_of(id);
        let mut n = self.inverted.len();
        proof {
            assert(pv.take(n as int) =~= pv);
        }
        while n > 0
            invariant
                n <= self.inverted.len(),
                pv == self.pointers(),
                k@ == id@,
                key_index(pv, id@) == key_index(pv.take(n as int), id@),
            decreases n,
        {
            let key = crate::text::chars_of(self.inverted[n - 1].0.as_str());
            proof {
                assert(pv.take(n as int).last() == pointer_view(self.inverted@[n - 1]));
                assert(pv.take(n as int).drop_last() =~= pv.take(n - 1));
            }
            if crate::text::chars_eq(&key, &k) {
                return Some(n - 1);
            }
            n = n - 1;
        }
        None
    }

    /// The sub-list id of the sale of product `product_id`; `None` when it is not on sale.
    pub fn get_sale_sublist_id(&self, product_id: &str) -> (res: Option<String>)
        ensures
            match res {
                Some(s) => lookup(self.pointers(), product_id@) == Some(s@),
                None => lookup(self.pointers(), product_id@) is None,
            },
    {
        proof {
            lemma_key_index(self.pointers(), product_id@);
        }
        match self.find_pointer(product_id) {
            Some(i) => Some(self.inverted[i].1.clone()),
            None => None,
        }
    }

    /// Whether product `product_id` is on sale.
    pub fn is_part_of_sale(&self, product_id: &str) -> (res: bool)
        ensures
            res == lookup(self.pointers(), product_id@) is Some,
    {
        proof {
            lemma_key_index(self.pointers(), product_id@);
        }
        self.find_pointer(product_id).is_some()
    }

    /// The sale info (the sub-list's validity and all its product ids) of the sale of product
    /// `product_id`; `None` when it is not on sale.
    pub fn get_sale_info(&self, product_id: &str) -> (res: Option<SaleInfo>)
        ensures
            match lookup(self.pointers(), product_id@) {
                Some(s) => match res {
                    Some(info) => lookup(self.sales(), s) == Some(info.view()),
                    None => lookup(self.sales(), s) is None,
                },
                None => res is None,
            },
    {
        let sublist = match self.get_sale_sublist_id(product_id) {
            Some(s) => s,
            None => return None,
        };
        proof {
            lemma_key_index(self.sales(), sublist@);
        }
        match self.find_sale(sublist.as_str()) {
            Some(i) => Some(self.normal[i].1.clone_info()),
            None => None,
        }
    }

    /// The sale info of sub-list `sublist_id`.
    pub fn get_sublist_sale(&self, sublist_id: &str) -> (res: Option<SaleInfo>)
        ensures
            match res {
                Some(info) => lookup(self.sales(), sublist_id@) == Some(info.view()),
                None => lookup(self.sales(), sublist_id@) is None,
            },
    {
        proof {
            lemma_key_index(self.sales(), sublist_id@);
        }
        match self.find_sale(sublist_id) {
            Some(i) => Some(self.normal[i].1.clone_info()),
            None => None,
        }
    }

    /// Set the sale of sub-list `id`; the inverted index is left as it is.
    pub fn insert_sale(&mut self, id: String, info: SaleInfo)
        ensures
            final(self).sales() == upsert(old(self).sales(), id@, info.view()),
            final(self).pointers() == old(self).pointers(),
    {
        proof {
            use_type_invariant(&*self);
            lemma_upsert(self.sales(), id@, info.view(), id@);
            lemma_key_index(self.sales(), id@);
        }
        let ghost idv = id@;
        let ghost iv = info.view();
        let ghost before = self.sales();
        let found = self.find_sale(id.as_str());
        let mut normal: Vec<(String, SaleInfo)> = Vec::new();
        std::mem::swap(&mut normal, &mut self.normal);
        match found {
            Some(i) => {
                normal.set(i, (id, info));
                proof {
                    assert(normal@.map_values(|e: (String, SaleInfo)| sale_entry_view(e)) =~= before.update(
                        i as int,
                        (idv, iv),
                    ));
                }
            },
            None => {
                normal.push((id, info));
                proof {
                    assert(normal@.map_values(|e: (String, SaleInfo)| sale_entry_view(e)) =~= before.push((idv, iv)));
                }
            },
        }
        self.normal = normal;
    }

    /// Remove the sale of sub-list `id`; the inverted index is left as it is.
    pub fn remove_sale(&mut self, id: &str)
        ensures
            final(self).sales() == remove_key(old(self).sales(), id@),
            final(self).pointers() == old(self).pointers(),
    {
        proof {
            use_type_invariant(&*self);
            lemma_remove_key(self.sales(), id@, id@);
        }
        let ghost before = self.sales();
        let mut kept: Vec<(String, SaleInfo)> = Vec::new();
        let mut old_normal: Vec<(String, SaleInfo)> = Vec::new();
        std::mem::swap(&mut old_normal, &mut self.normal);
        proof {
            assert(old_normal@.map_values(|e: (String, SaleInfo)| sale_entry_view(e)) == before);
        }
        let k = crate::text::chars_of(id);
        let mut i: usize = 0;
        let ghost total = old_normal.len();
        while old_normal.len() > 0
            invariant
                i + old_normal.len() == total,
                total == before.len(),
                k@ == id@,
                old_normal@.map_values(|e: (String, SaleInfo)| sale_entry_view(e)) == before.skip(i as int),
                kept@.map_values(|e: (String, SaleInfo)| sale_entry_view(e)) == remove_key(before.take(i as int), id@),
            decreases old_normal.len(),
        {
            let ghost olds = old_normal@;
            let e = old_normal.remove(0);
            proof {
                reveal(Seq::filter);
                assert(old_normal@ =~= olds.drop_first());
                assert(before.skip(i as int)[0] == sale_entry_view(e));
                assert(before.skip(i + 1) =~= before.skip(i as int).drop_first());
                assert(old_normal@.map_values(|e: (String, SaleInfo)| sale_entry_view(e)) =~= olds.map_values(
                    |e: (String, SaleInfo)| sale_entry_view(e),
                ).drop_first());
                assert(before.take(i + 1).drop_last() =~= before.take(i as int));
                assert(before.take(i + 1).last() == before[i as int]);
                assert(before[i as int] == sale_entry_view(e));
            }
            let key = crate::text::chars_of(e.0.as_str());
            let ghost prev = kept@;
            if !crate::text::chars_eq(&key, &k) {
                kept.push(e);
                proof {
                    assert(kept@.map_values(|e: (String, SaleInfo)| sale_entry_view(e)) =~= prev.map_values(
                        |e: (String, SaleInfo)| sale_entry_view(e),
                    ).push(sale_entry_view(e)));
                }
            }
            i = i + 1;
        }
        proof {
            assert(before.take(i as int) =~= before);
        }
        self.normal = kept;
    }

    /// Remove everything that derives from sub-list `id` (`clear_derived_sublist`): its sale, and every
    /// product pointing at it.
    pub fn remove_sublist(&mut self, id: &str)
        ensures
            final(self).sales() == remove_key(old(self).sales(), id@),
            final(self).pointers() == old(self).pointers().filter(|e: (Seq<char>, Seq<char>)| e.1 != id@),
    {
        self.remove_sale(id);
        proof {
            use_type_invariant(&*self);
        }
        let ghost before = self.pointers();
        let mut kept: Vec<(String, String)> = Vec::new();
        let mut old_inverted: Vec<(String, String)> = Vec::new();
        std::mem::swap(&mut old_inverted, &mut self.inverted);
        let k = crate::text::chars_of(id);
        let mut i: usize = 0;
        let ghost total = old_inverted.len();
        let ghost keep = |e: (Seq<char>, Seq<char>)| e.1 != id@;
        while old_inverted.len() > 0
            invariant
                i + old_inverted.len() == total,
                total == before.len(),
                k@ == id@,
                keep == (|e: (Seq<char>, Seq<char>)| e.1 != id@),
                old_inverted@.map_values(|e: (String, String)| pointer_view(e)) == before.skip(i as int),
                kept@.map_values(|e: (String, String)| pointer_view(e)) == before.take(i as int).filter(keep),
            decreases old_inverted.len(),
        {
            let ghost olds = old_inverted@;
            let e = old_inverted.remove(0);
            proof {
                reveal(Seq::filter);
                assert(old_inverted@ =~= olds.drop_first());
                assert(before.skip(i as int)[0] == pointer_view(e));
                assert(before.skip(i + 1) =~= before.skip(i as int).drop_first());
                assert(old_inverted@.map_values(|e: (String, String)| pointer_view(e)) =~= olds.map_values(
                    |e: (String, String)| pointer_view(e),
                ).drop_first());
                assert(before.take(i + 1).drop_last() =~= before.take(i as int));
                assert(before.take(i + 1).last() == before[i as int]);
                assert(before[i as int] == pointer_view(e));
            }
            let value = crate::text::chars_of(e.1.as_str());
            let ghost prev = kept@;
            if !crate::text::chars_eq(&value, &k) {
                kept.push(e);
                proof {
                    assert(kept@.map_values(|e: (String, String)| pointer_view(e)) =~= prev.map_values(
                        |e: (String, String)| pointer_view(e),
                    ).push(pointer_view(e)));
                }
            }
            i = i + 1;
        }
        proof {
            assert(before.take(i as int) =~= before);
            lemma_filter_unique(before, keep);
        }
        self.inverted = kept;
    }

    /// Remove all sales and pointers.
    pub fn clear(&mut self)
        ensures
            final(self).sales().len() == 0,
            final(self).pointers().len() == 0,
    {
        *self = SaleIndex::new();
    }

    /// Rebuild the inverted index from the sales: every product id points at the sub-list of the last
    /// sale that lists it.
    pub fn rebuild_inverted(&mut self)
        ensures
            final(self).sales() == old(self).sales(),
            final(self).pointers() == invert(old(self).sales()),
            unique_keys(final(self).sales()),
    {
        proof {
            use_type_invariant(&*self);
        }
        let ghost sales = self.sales();
        let mut inverted: Vec<(String, String)> = Vec::new();
        let mut i: usize = 0;
        while i < self.normal.len()
            invariant
                i <= self.normal.len(),
                sales == self.sales(),
                inverted@.map_values(|e: (String, String)| pointer_view(e)) == invert(sales.take(i as int)),
            decreases self.normal.len() - i,
        {
            proof {
                assert(sales.take(i + 1).drop_last() =~= sales.take(i as int));
                assert(sales.take(i + 1).last() == sale_entry_view(self.normal@[i as int]));
            }
            let sid = &self.normal[i].0;
            let ids = &self.normal[i].1.item_ids;
            let ghost idv = ids@.map_values(|s: String| s@);
            let ghost start = inverted@.map_values(|e: (String, String)| pointer_view(e));
            let mut j: usize = 0;
            while j < ids.len()
                invariant
                    j <= ids.len(),
                    idv == ids@.map_values(|s: String| s@),
                    inverted@.map_values(|e: (String, String)| pointer_view(e)) == invert_ids(
                        start,
                        idv.take(j as int),
                        sid@,
                    ),
                decreases ids.len() - j,
            {
                proof {
                    assert(idv.take(j + 1).drop_last() =~= idv.take(j as int));
                    assert(idv.take(j + 1).last() == ids@[j as int]@);
                }
                set_pointer(&mut inverted, ids[j].clone(), sid.clone());
                j = j + 1;
            }
            proof {
                assert(idv.take(ids.len() as int) =~= idv);
            }
            i = i + 1;
        }
        proof {
            assert(sales.take(self.normal.len() as int) =~= sales);
            lemma_invert(sales, seq![]);
        }
        self.inverted = inverted;
    }
}

proof fn lemma_filter_unique(pairs: Seq<(Seq<char>, Seq<char>)>, keep: spec_fn((Seq<char>, Seq<char>)) -> bool)
    requires
        unique_keys(pairs),
    ensures
        unique_keys(pairs.filter(keep)),
        forall|j: int| 0 <= j < pairs.filter(keep).len() ==> pairs.contains(#[trigger] pairs.filter(keep)[j]),
    decreases pairs.len(),
{
    reveal(Seq::filter);
    if pairs.len() > 0 {
        let rest = pairs.drop_last();
        assert(unique_keys(rest)) by {
            assert forall|i: int, j: int| 0 <= i < j < rest.len() implies rest[i].0 != rest[j].0 by {
                assert(rest[i] == pairs[i]);
                assert(rest[j] == pairs[j]);
            }
        }
        lemma_filter_unique(rest, keep);
        let f = pairs.filter(keep);
        let fr = rest.filter(keep);
        assert forall|j: int| 0 <= j < fr.len() implies pairs.contains(#[trigger] fr[j]) by {
            let q = choose|q: int| 0 <= q < rest.len() && rest[q] == fr[j];
            assert(pairs[q] == rest[q]);
        }
        if keep(pairs.last()) {
            assert(f == fr.push(pairs.last()));
            assert forall|i: int, j: int| 0 <= i < j < f.len() implies f[i].0 != f[j].0 by {
                if j == f.len() - 1 {
                    assert(rest.contains(fr[i]));
                    let q = choose|q: int| 0 <= q < rest.len() && rest[q] == fr[i];
                    assert(pairs[q] == rest[q]);
                    assert(f[i] == fr[i]);
                } else {
                    assert(f[i] == fr[i]);
                    assert(f[j] == fr[j]);
                }
            }
            assert forall|j: int| 0 <= j < f.len() implies pairs.contains(#[trigger] f[j]) by {
                if j < f.len() - 1 {
                    assert(f[j] == fr[j]);
                } else {
                    assert(pairs[pairs.len() - 1] == f[j]);
                }
            }
        } else {
            assert(f == fr);
        }
    }
}

/// Point product `product_id` at sub-list `sublist_id` in an inverted index.
fn set_pointer(inverted: &mut Vec<(String, String)>, product_id: String, sublist_id: String)
    ensures
        final(inverted)@.map_values(|e: (String, String)| pointer_view(e)) == upsert(
            old(inverted)@.map_values(|e: (String, String)| pointer_view(e)),
            product_id@,
            sublist_id@,
        ),
{
    let ghost pv = inverted@.map_values(|e: (String, String)| pointer_view(e));
    let k = crate::text::chars_of(product_id.as_str());
    let mut n = inverted.len();
    proof {
        assert(pv.take(n as int) =~= pv);
    }
    while n > 0
        invariant
            n <= inverted.len(),
            inverted@ == old(inverted)@,
            pv == inverted@.map_values(|e: (String, String)| pointer_view(e)),
            k@ == product_id@,
            key_index(pv, product_id@) == key_index(pv.take(n as int), product_id@),
        decreases n,
    {
        let key = crate::text::chars_of(inverted[n - 1].0.as_str());
        proof {
            assert(pv.take(n as int).last() == pointer_view(inverted@[n - 1]));
            assert(pv.take(n as int).drop_last() =~= pv.take(n - 1));
        }
        if crate::text::chars_eq(&key, &k) {
            let ghost pidv = product_id@;
            let ghost sidv = sublist_id@;
            proof {
                assert(pv.take(n as int).last().0 == product_id@);
                assert(key_index(pv.take(n as int), product_id@) == Some((n - 1) as nat));
            }
            inverted.set(n - 1, (product_id, sublist_id));
            proof {
                assert(inverted@.map_values(|e: (String, String)| pointer_view(e)) =~= pv.update(
                    n - 1,
                    (pidv, sidv),
                ));
                assert(key_index(pv, pidv) == Some((n - 1) as nat));
                assert(upsert(pv, pidv, sidv) == pv.update(n - 1, (pidv, sidv)));
            }
            return;
        }
        n = n - 1;
    }
    let ghost pidv = product_id@;
    let ghost sidv = sublist_id@;
    inverted.push((product_id, sublist_id));
    proof {
        assert(inverted@.map_values(|e: (String, String)| pointer_view(e)) =~= pv.push((pidv, sidv)));
    }
}


/// Once the inverted index is rebuilt from sales whose sub-list ids are unique, a product is found
/// exactly when some sale lists it, and the sale it is found in lists it.
pub proof fn lemma_rebuilt_index_finds_listed_products(sales: Seq<(Seq<char>, SaleView)>, p: Seq<char>)
    requires
        unique_keys(sales),
    ensures
        lookup(invert(sales), p) is Some <==> listed(sales, p),
        lookup(invert(sales), p) matches Some(s) ==> lookup(sales, s) matches Some(info) && info.2.contains(p),
{
    lemma_invert(sales, p);
    if lookup(invert(sales), p) is Some {
        let s = lookup(invert(sales), p).unwrap();
        let i = choose|i: int| 0 <= i < sales.len() && (#[trigger] sales[i]).0 == s && sales[i].1.2.contains(p);
        lemma_lookup_unique(sales, i);
    }
}

/// After the products of a sub-list are removed, no product points at it any more.
pub proof fn lemma_removed_sublist_has_no_pointers(pointers: Seq<(Seq<char>, Seq<char>)>, id: Seq<char>, p: Seq<char>)
    ensures
        lookup(pointers.filter(|e: (Seq<char>, Seq<char>)| e.1 != id), p) != Some(id),
    decreases pointers.len(),
{
    reveal(Seq::filter);
    if pointers.len() > 0 {
        lemma_removed_sublist_has_no_pointers(pointers.drop_last(), id, p);
        let f = pointers.filter(|e: (Seq<char>, Seq<char>)| e.1 != id);
        let fr = pointers.drop_last().filter(|e: (Seq<char>, Seq<char>)| e.1 != id);
        if pointers.last().1 != id {
            assert(f == fr.push(pointers.last()));
            assert(f.drop_last() =~= fr);
        } else {
            assert(f == fr);
        }
    }
}

/// Setting entries in turn leaves each key with the value of its last entry, and the other keys as they
/// were; keys stay unique.
pub proof fn lemma_upsert_all<V>(pairs: Seq<(Seq<char>, V)>, entries: Seq<(Seq<char>, V)>, k: Seq<char>)
    ensures
        lookup(upsert_all(pairs, entries), k) == (match lookup(entries, k) {
            Some(v) => Some(v),
            None => lookup(pairs, k),
        }),
        unique_keys(pairs) ==> unique_keys(upsert_all(pairs, entries)),
    decreases entries.len(),
{
    if entries.len() > 0 {
        let rest = upsert_all(pairs, entries.drop_last());
        lemma_upsert_all(pairs, entries.drop_last(), k);
        lemma_upsert(rest, entries.last().0, entries.last().1, k);
    }
}

/// Removing keys leaves none of them, and the other keys as they were; keys stay unique.
pub proof fn lemma_remove_keys<V>(pairs: Seq<(Seq<char>, V)>, ids: Seq<Seq<char>>, k: Seq<char>)
    ensures
        lookup(remove_keys(pairs, ids), k) == (if ids.contains(k) {
            None
        } else {
            lookup(pairs, k)
        }),
        unique_keys(pairs) ==> unique_keys(remove_keys(pairs, ids)),
    decreases ids.len(),
{
    if ids.len() > 0 {
        let rest = remove_keys(pairs, ids.drop_last());
        lemma_remove_keys(pairs, ids.drop_last(), k);
        lemma_remove_key(rest, ids.last(), k);
        if ids.drop_last().contains(k) {
            let i = choose|i: int| 0 <= i < ids.drop_last().len() && ids.drop_last()[i] == k;
            assert(ids[i] == k);
        }
        if ids.contains(k) && ids.last() != k {
            let i = choose|i: int| 0 <= i < ids.len() && ids[i] == k;
            assert(ids.drop_last()[i] == k);
        }
    }
}

/// A refresh that drops the sales of the sub-lists `gone` and then sets the `fetched` sales gives each
/// fetched sub-list its fetched sale, leaves no sale for a dropped sub-list that was not fetched again,
/// and leaves every other sale as it was.
pub proof fn lemma_refresh_sales(
    sales: Seq<(Seq<char>, SaleView)>,
    gone: Seq<Seq<char>>,
    fetched: Seq<(Seq<char>, SaleView)>,
    k: Seq<char>,
)
    ensures
        lookup(upsert_all(remove_keys(sales, gone), fetched), k) == (match lookup(fetched, k) {
            Some(v) => Some(v),
            None => if gone.contains(k) {
                None
            } else {
                lookup(sales, k)
            },
        }),
{
    lemma_remove_keys(sales, gone, k);
    lemma_upsert_all(remove_keys(sales, gone), fetched, k);
}

// ** Where sale infos come from **

/// Where the sale info of one sub-list comes from: a sub-list that must be requested from the
/// provider, or a limited sale group that already lists its products.
pub enum SaleSource {
    Fetch(String),
    Known(String, SaleInfo),
}

/// The view of a sale source: the sub-list id, and the sale info when it is known.
pub open spec fn source_view(s: SaleSource) -> (Seq<char>, Option<SaleView>) {
    match s {
        SaleSource::Fetch(id) => (id@, None),
        SaleSource::Known(id, info) => (id@, Some(info.view())),
    }
}

/// The sale info that a limited group gives when it lists its products: its validity and their ids.
pub open spec fn group_sale_view(g: WggSaleGroupLimited) -> SaleView {
    (
        g.sale_info.sale_validity.valid_from,
        g.sale_info.sale_validity.valid_until,
        g.items@.map_values(|i: ProductIdT| i.id@),
    )
}

/// The sale sources of one item of a category: a group that lists no products must be requested (the
/// provider may have left them out), another gives its own sale info; a product gives none.
pub open spec fn item_sources(item: WggSaleItem) -> Seq<(Seq<char>, Option<SaleView>)> {
    match item {
        WggSaleItem::Group(g) => if g.items@.len() == 0 {
            seq![(g.id@, None)]
        } else {
            seq![(g.id@, Some(group_sale_view(g)))]
        },
        WggSaleItem::Product(_) => seq![],
    }
}

/// The sale sources of the items of a category, in order.
pub open spec fn items_sources(items: Seq<WggSaleItem>) -> Seq<(Seq<char>, Option<SaleView>)>
    decreases items.len(),
{
    if items.len() == 0 {
        seq![]
    } else {
        items_sources(items.drop_last()) + item_sources(items.last())
    }
}

/// The sale sources of a category: its own sub-list when it has one, then those of its items.
pub open spec fn category_sources(c: WggSaleCategory) -> Seq<(Seq<char>, Option<SaleView>)> {
    match c.id {
        Some(id) => seq![(id@, None)] + items_sources(c.items@),
        None => items_sources(c.items@),
    }
}

/// The sale sources of categories, in order.
pub open spec fn all_sources(cs: Seq<WggSaleCategory>) -> Seq<(Seq<char>, Option<SaleView>)>
    decreases cs.len(),
{
    if cs.len() == 0 {
        seq![]
    } else {
        all_sources(cs.drop_last()) + category_sources(cs.last())
    }
}

/// The views of sale sources.
pub open spec fn sources_view(v: Seq<SaleSource>) -> Seq<(Seq<char>, Option<SaleView>)> {
    v.map_values(|s: SaleSource| source_view(s))
}

fn product_ids_of(items: &Vec<ProductIdT>) -> (res: Vec<String>)
    ensures
        res@.map_values(|s: String| s@) == items@.map_values(|i: ProductIdT| i.id@),
{
    let ghost want = items@.map_values(|i: ProductIdT| i.id@);
    let mut res: Vec<String> = Vec::new();
    let mut i: usize = 0;
    while i < items.len()
        invariant
            i <= items.len(),
            want == items@.map_values(|i: ProductIdT| i.id@),
            res@.map_values(|s: String| s@) == want.take(i as int),
        decreases items.len() - i,
    {
        let id = items[i].id.clone();
        let ghost prev = res@;
        res.push(id);
        proof {
            assert(want.take(i + 1) =~= want.take(i as int).push(id@));
            assert(res@.map_values(|s: String| s@) =~= prev.map_values(|s: String| s@).push(id@));
        }
        i = i + 1;
    }
    proof {
        assert(want.take(items.len() as int) =~= want);
    }
    res
}

fn push_source(res: &mut Vec<SaleSource>, src: SaleSource)
    ensures
        sources_view(final(res)@) == sources_view(old(res)@).push(source_view(src)),
{
    let ghost prev = res@;
    let ghost sv = source_view(src);
    res.push(src);
    proof {
        assert(sources_view(res@) =~= sources_view(prev).push(sv));
    }
}

/// Add the sale sources of one category to `res`, see [category_sources].
fn push_category_sources(cat: &WggSaleCategory, res: &mut Vec<SaleSource>)
    ensures
        sources_view(final(res)@) == sources_view(old(res)@) + category_sources(*cat),
{
    let ghost start = sources_view(res@);
    match &cat.id {
        Some(id) => push_source(res, SaleSource::Fetch(id.clone())),
        None => {},
    }
    let ghost after_id = sources_view(res@);
    let mut i: usize = 0;
    proof {
        assert(after_id + items_sources(cat.items@.take(0)) =~= after_id);
    }
    while i < cat.items.len()
        invariant
            i <= cat.items.len(),
            sources_view(res@) == after_id + items_sources(cat.items@.take(i as int)),
        decreases cat.items.len() - i,
    {
        proof {
            assert(cat.items@.take(i + 1).drop_last() =~= cat.items@.take(i as int));
            assert(cat.items@.take(i + 1).last() == cat.items@[i as int]);
        }
        let ghost before = sources_view(res@);
        match &cat.items[i] {
            WggSaleItem::Group(g) => {
                if g.items.len() == 0 {
                    push_source(res, SaleSource::Fetch(g.id.clone()));
                } else {
                    let info = SaleInfo::new(
                        g.sale_info.sale_validity.valid_from,
                        g.sale_info.sale_validity.valid_until,
                        product_ids_of(&g.items),
                    );
                    push_source(res, SaleSource::Known(g.id.clone(), info));
                }
                proof {
                    assert(sources_view(res@) =~= before + item_sources(cat.items@[i as int]));
                }
            },
            WggSaleItem::Product(_) => {
                proof {
                    assert(sources_view(res@) =~= before + item_sources(cat.items@[i as int]));
                }
            },
        }
        proof {
            assert(after_id + items_sources(cat.items@.take(i + 1)) =~= after_id + items_sources(
                cat.items@.take(i as int),
            ) + item_sources(cat.items@[i as int]));
        }
        i = i + 1;
    }
    proof {
        assert(cat.items@.take(cat.items.len() as int) =~= cat.items@);
        assert(after_id == start + match cat.id {
            Some(id) => seq![(id@, None::<SaleView>)],
            None => Seq::<(Seq<char>, Option<SaleView>)>::empty(),
        });
        assert(sources_view(res@) =~= start + category_sources(*cat));
    }
}

/// The sale sources that promotion categories give, see [all_sources]: which sub-lists to request, and
/// which sale infos are known already.
pub fn sale_sources(promotions: &Vec<WggSaleCategory>) -> (res: Vec<SaleSource>)
    ensures
        sources_view(res@) == all_sources(promotions@),
{
    let mut res: Vec<SaleSource> = Vec::new();
    let mut c: usize = 0;
    proof {
        assert(sources_view(res@) =~= all_sources(promotions@.take(0)));
    }
    while c < promotions.len()
        invariant
            c <= promotions.len(),
            sources_view(res@) == all_sources(promotions@.take(c as int)),
        decreases promotions.len() - c,
    {
        proof {
            assert(promotions@.take(c + 1).drop_last() =~= promotions@.take(c as int));
            assert(promotions@.take(c + 1).last() == promotions@[c as int]);
        }
        push_category_sources(&promotions[c], &mut res);
        c = c + 1;
    }
    proof {
        assert(promotions@.take(promotions.len() as int) =~= promotions@);
    }
    res
}

/// The categories of `cs` whose mark in `marks` is set, in order.
pub open spec fn marked_categories(cs: Seq<WggSaleCategory>, marks: Seq<bool>) -> Seq<WggSaleCategory>
    decreases cs.len(),
{
    if cs.len() == 0 {
        seq![]
    } else if marks.last() {
        marked_categories(cs.drop_last(), marks.drop_last()).push(cs.last())
    } else {
        marked_categories(cs.drop_last(), marks.drop_last())
    }
}

/// The sale sources of the categories whose mark is set (the categories that were added, or removed,
/// since the last refresh), see [all_sources].
pub fn marked_sale_sources(promotions: &Vec<WggSaleCategory>, marks: &Vec<bool>) -> (res: Vec<SaleSource>)
    requires
        marks.len() == promotions.len(),
    ensures
        sources_view(res@) == all_sources(marked_categories(promotions@, marks@)),
{
    let mut res: Vec<SaleSource> = Vec::new();
    let mut c: usize = 0;
    proof {
        assert(sources_view(res@) =~= all_sources(marked_categories(promotions@.take(0), marks@.take(0))));
    }
    while c < promotions.len()
        invariant
            c <= promotions.len(),
            marks.len() == promotions.len(),
            sources_view(res@) == all_sources(marked_categories(promotions@.take(c as int), marks@.take(c as int))),
        decreases promotions.len() - c,
    {
        let ghost cs = promotions@.take(c + 1);
        let ghost ms = marks@.take(c + 1);
        proof {
            assert(cs.drop_last() =~= promotions@.take(c as int));
            assert(ms.drop_last() =~= marks@.take(c as int));
            assert(cs.last() == promotions@[c as int]);
            assert(ms.last() == marks@[c as int]);
        }
        if marks[c] {
            let ghost prev = marked_categories(promotions@.take(c as int), marks@.take(c as int));
            push_category_sources(&promotions[c], &mut res);
            proof {
                assert(marked_categories(cs, ms) == prev.push(promotions@[c as int]));
                assert(prev.push(promotions@[c as int]).drop_last() =~= prev);
            }
        }
        c = c + 1;
    }
    proof {
        assert(promotions@.take(promotions.len() as int) =~= promotions@);
        assert(marks@.take(marks.len() as int) =~= marks@);
    }
    res
}

/// The sale info of a complete sale group: its validity and the ids of its products.
pub fn sale_info_of_group(group: &WggSaleGroupComplete) -> (res: SaleInfo)
    ensures
        res.view() == (
            group.sale_info.sale_validity.valid_from,
            group.sale_info.sale_validity.valid_until,
            group.items@.map_values(|p: WggSearchProduct| p.id@),
        ),
{
    let ghost want = group.items@.map_values(|p: WggSearchProduct| p.id@);
    let mut ids: Vec<String> = Vec::new();
    let mut i: usize = 0;
    while i < group.items.len()
        invariant
            i <= group.items.len(),
            want == group.items@.map_values(|p: WggSearchProduct| p.id@),
            ids@.map_values(|s: String| s@) == want.take(i as int),
        decreases group.items.len() - i,
    {
        let id = group.items[i].id.clone();
        let ghost prev = ids@;
        ids.push(id);
        proof {
            assert(want.take(i + 1) =~= want.take(i as int).push(id@));
            assert(ids@.map_values(|s: String| s@) =~= prev.map_values(|s: String| s@).push(id@));
        }
        i = i + 1;
    }
    proof {
        assert(want.take(group.items.len() as int) =~= want);
    }
    SaleInfo::new(group.sale_info.sale_validity.valid_from, group.sale_info.sale_validity.valid_until, ids)
}

// ** Refreshing the index **

/// The sub-list ids of sale sources.
pub open spec fn source_ids(sources: Seq<(Seq<char>, Option<SaleView>)>) -> Seq<Seq<char>> {
    sources.map_values(|e: (Seq<char>, Option<SaleView>)| e.0)
}

/// `pairs` without the entries of the keys `ids`, removed one key at a time.
pub open spec fn remove_keys<V>(pairs: Seq<(Seq<char>, V)>, ids: Seq<Seq<char>>) -> Seq<(Seq<char>, V)>
    decreases ids.len(),
{
    if ids.len() == 0 {
        pairs
    } else {
        remove_key(remove_keys(pairs, ids.drop_last()), ids.last())
    }
}

/// `pairs` with each entry of `entries` set in turn, see [upsert].
pub open spec fn upsert_all<V>(pairs: Seq<(Seq<char>, V)>, entries: Seq<(Seq<char>, V)>) -> Seq<(Seq<char>, V)>
    decreases entries.len(),
{
    if entries.len() == 0 {
        pairs
    } else {
        upsert(upsert_all(pairs, entries.drop_last()), entries.last().0, entries.last().1)
    }
}

/// Whether some mark is set.
pub open spec fn any_marked(marks: Seq<bool>) -> bool {
    exists|i: int| 0 <= i < marks.len() && marks[i]
}

fn any_set(marks: &Vec<bool>) -> (res: bool)
    ensures
        res == any_marked(marks@),
{
    let mut i: usize = 0;
    while i < marks.len()
        invariant
            i <= marks.len(),
            forall|j: int| 0 <= j < i ==> !marks@[j],
        decreases marks.len() - i,
    {
        if marks[i] {
            return true;
        }
        i = i + 1;
    }
    false
}

/// The sub-list id of a sale source.
fn source_id(source: &SaleSource) -> (res: &String)
    ensures
        res@ == source_view(*source).0,
{
    match source {
        SaleSource::Fetch(id) => id,
        SaleSource::Known(id, _) => id,
    }
}

/// Whether `res` and the index `after` are what starting a refresh of index `before` gives, see
/// [SaleIndex::start_refresh]: an index that is not usable is cleared and every fresh category counts
/// as added; with nothing added or removed the answer is `None`; else the sales of the removed
/// categories' sub-lists are dropped and the sale sources of the added categories are the answer.
pub open spec fn refresh_started(
    before: SaleIndex,
    after: SaleIndex,
    current: Seq<WggSaleCategory>,
    removed: Seq<bool>,
    fresh: Seq<WggSaleCategory>,
    added: Seq<bool>,
    res: Option<Vec<SaleSource>>,
) -> bool {
    let valid = before.sales().len() > 0 && before.pointers().len() > 0;
    let base_sales = if valid { before.sales() } else { seq![] };
    let base_pointers = if valid { before.pointers() } else { seq![] };
    let to_add = if valid { marked_categories(fresh, added) } else { fresh };
    let changed = any_marked(removed) || (if valid { any_marked(added) } else { fresh.len() > 0 });
    &&& after.pointers() == base_pointers
    &&& !changed ==> res is None && after.sales() == base_sales
    &&& changed ==> (res matches Some(v) && sources_view(v@) == all_sources(to_add))
    &&& changed ==> after.sales() == remove_keys(
        base_sales,
        source_ids(all_sources(marked_categories(current, removed))),
    )
}

impl SaleIndex {
    /// Start a refresh, once it is known which of the `current` categories were `removed` and which of
    /// the `fresh` ones were `added`. An index that is not usable (see [SaleIndex::are_valid]) is cleared
    /// first, and then every fresh category counts as added. When nothing was added or removed the
    /// refresh is done: `None`. Else the sales of the sub-lists of the removed categories are dropped, and
    /// the sale sources of the added categories are returned; the sales they give are set by
    /// [SaleIndex::finish_refresh].
    pub fn start_refresh(
        &mut self,
        current: &Vec<WggSaleCategory>,
        removed: &Vec<bool>,
        fresh: &Vec<WggSaleCategory>,
        added: &Vec<bool>,
    ) -> (res: Option<Vec<SaleSource>>)
        requires
            removed.len() == current.len(),
            added.len() == fresh.len(),
        ensures
            refresh_started(*old(self), *final(self), current@, removed@, fresh@, added@, res),
    {
        let valid = self.are_valid();
        if !valid {
            self.clear();
            proof {
                assert(self.sales() =~= Seq::<(Seq<char>, SaleView)>::empty());
                assert(self.pointers() =~= Seq::<(Seq<char>, Seq<char>)>::empty());
            }
        }
        let ghost base = self.sales();
        let ghost base_p = self.pointers();
        let any_removed = any_set(removed);
        let any_added = if valid {
            any_set(added)
        } else {
            fresh.len() > 0
        };
        if !any_removed && !any_added {
            return None;
        }
        let gone = marked_sale_sources(current, removed);
        let ghost ids = source_ids(sources_view(gone@));
        let mut i: usize = 0;
        proof {
            assert(ids.take(0) =~= Seq::<Seq<char>>::empty());
        }
        while i < gone.len()
            invariant
                i <= gone.len(),
                ids == source_ids(sources_view(gone@)),
                self.sales() == remove_keys(base, ids.take(i as int)),
                self.pointers() == base_p,
            decreases gone.len() - i,
        {
            let id = source_id(&gone[i]);
            proof {
                assert(ids.take(i + 1).drop_last() =~= ids.take(i as int));
                assert(ids.take(i + 1).last() == id@);
            }
            self.remove_sale(id.as_str());
            i = i + 1;
        }
        proof {
            assert(ids.take(gone.len() as int) =~= ids);
        }
        let sources = if valid {
            marked_sale_sources(fresh, added)
        } else {
            sale_sources(fresh)
        };
        Some(sources)
    }

    /// Complete a refresh: set the sale of every fetched sub-list, in order, then rebuild the inverted
    /// index from all sales.
    pub fn finish_refresh(&mut self, fetched: Vec<(String, SaleInfo)>)
        ensures
            final(self).sales() == upsert_all(
                old(self).sales(),
                fetched@.map_values(|e: (String, SaleInfo)| sale_entry_view(e)),
            ),
            final(self).pointers() == invert(final(self).sales()),
            unique_keys(final(self).sales()),
    {
        let ghost entries = fetched@.map_values(|e: (String, SaleInfo)| sale_entry_view(e));
        let ghost base = self.sales();
        let ghost n = fetched.len();
        let mut rest = fetched;
        let mut k: usize = 0;
        proof {
            assert(entries.skip(0) =~= entries);
        }
        while rest.len() > 0
            invariant
                k + rest.len() == n,
                n == entries.len(),
                n <= usize::MAX,
                rest@.map_values(|e: (String, SaleInfo)| sale_entry_view(e)) == entries.skip(k as int),
                self.sales() == upsert_all(base, entries.take(k as int)),
            decreases rest.len(),
        {
            let ghost before = rest@;
            let (id, info) = rest.remove(0);
            proof {
                assert(rest@ =~= before.drop_first());
                assert(before.map_values(|e: (String, SaleInfo)| sale_entry_view(e))[0] == (id@, info.view()));
                assert(entries.skip(k as int)[0] == entries[k as int]);
                assert(entries.take(k + 1).drop_last() =~= entries.take(k as int));
                assert(entries.take(k + 1).last() == entries[k as int]);
                assert(rest@.map_values(|e: (String, SaleInfo)| sale_entry_view(e)) =~= before.map_values(
                    |e: (String, SaleInfo)| sale_entry_view(e),
                ).drop_first());
                assert(entries.skip(k + 1) =~= entries.skip(k as int).drop_first());
            }
            self.insert_sale(id, info);
            k = k + 1;
        }
        proof {
            assert(entries.take(k as int) =~= entries);
        }
        self.rebuild_inverted();
    }
}


/// The end of the week of `now`: how long fetched promotions are kept.
pub open spec fn promotions_expiry(now: int) -> int {
    week_start(now) + 7 * day_seconds() - 1
}

/// The sales of one provider: its promotions as last fetched with the second until which they are
/// kept (`None` when none are kept), the sale index derived from them, whether that index is complete,
/// and the fetched sub-lists, each kept while its sale lasts.
pub struct ProviderSales {
    pub promotions: Vec<WggSaleCategory>,
    pub promotions_expire: Option<i64>,
    pub index: SaleIndex,
    pub is_complete: bool,
    pub sublists: TimedCache<WggSaleGroupComplete>,
}

impl ProviderSales {
    /// No promotions, an empty index, not complete, no sub-lists.
    pub fn new() -> (res: ProviderSales)
        ensures
            res.promotions@.len() == 0,
            res.promotions_expire is None,
            res.index.sales().len() == 0,
            res.index.pointers().len() == 0,
            !res.is_complete,
            res.sublists.entries().len() == 0,
    {
        ProviderSales {
            promotions: Vec::new(),
            promotions_expire: None,
            index: SaleIndex::new(),
            is_complete: false,
            sublists: TimedCache::new(usize::MAX),
        }
    }

    /// The kept promotions while they are valid at `now`.
    pub fn cached_promotions_at(&self, now: i64) -> (res: Option<&Vec<WggSaleCategory>>)
        ensures
            res == (match self.promotions_expire {
                Some(e) => if now <= e {
                    Some(&self.promotions)
                } else {
                    None
                },
                None => None,
            }),
    {
        match self.promotions_expire {
            Some(e) => if now <= e {
                Some(&self.promotions)
            } else {
                None
            },
            None => None,
        }
    }

    /// Drop the kept promotions when they expired at `now`, and everything derived from them (the index
    /// and the sub-lists): the cache then needs reconciling. Otherwise nothing changes.
    pub fn expire_promotions_at(&mut self, now: i64) -> (res: CacheAction)
        ensures
            (match old(self).promotions_expire {
                Some(e) => now > e,
                None => false,
            }) ==> {
                &&& res == CacheAction::ReconcileCache
                &&& final(self).promotions@.len() == 0
                &&& final(self).promotions_expire is None
                &&& final(self).index.sales().len() == 0
                &&& final(self).index.pointers().len() == 0
                &&& final(self).sublists.entries().len() == 0
                &&& final(self).is_complete == old(self).is_complete
            },
            !(match old(self).promotions_expire {
                Some(e) => now > e,
                None => false,
            }) ==> res == CacheAction::Nothing && *final(self) == *old(self),
    {
        let expired = match self.promotions_expire {
            Some(e) => now > e,
            None => false,
        };
        if expired {
            self.promotions = Vec::new();
            self.promotions_expire = None;
            self.index.clear();
            self.sublists.clear();
            CacheAction::ReconcileCache
        } else {
            CacheAction::Nothing
        }
    }

    /// Keep freshly fetched promotions until the end of the week of `now`; the cache then needs
    /// reconciling.
    pub fn insert_promotions_at(&mut self, promotions: Vec<WggSaleCategory>, now: i64) -> (res: CacheAction)
        requires
            min_timestamp() <= now <= max_timestamp(),
        ensures
            res == CacheAction::ReconcileCache,
            final(self).promotions == promotions,
            final(self).promotions_expire == Some(promotions_expiry(now as int) as i64),
            final(self).index == old(self).index,
            final(self).is_complete == old(self).is_complete,
            final(self).sublists == old(self).sublists,
    {
        let validity = get_guessed_sale_validity(now);
        self.promotions = promotions;
        self.promotions_expire = Some(validity.valid_until);
        CacheAction::ReconcileCache
    }

    /// The fetched sub-list `id` while its sale lasts at `now`.
    pub fn sublist_at(&self, id: &str, now: i64) -> (res: Option<&WggSaleGroupComplete>)
        ensures
            match valid_item(lookup(self.sublists.entries(), id@), now as int) {
                Some(group) => res == Some(&group),
                None => res is None,
            },
    {
        self.sublists.get_at(id, now)
    }

    /// Drop the fetched sub-list `id` when its sale ended at `now`, with what derives from it (its sale
    /// and the products pointing at it): the cache then needs reconciling. Otherwise nothing changes.
    pub fn expire_sublist_at(&mut self, id: &str, now: i64) -> (res: CacheAction)
        ensures
            (match lookup(old(self).sublists.entries(), id@) {
                Some(t) => now > t.expires,
                None => false,
            }) ==> {
                &&& res == CacheAction::ReconcileCache
                &&& final(self).sublists.entries() == remove_key(old(self).sublists.entries(), id@)
                &&& final(self).index.sales() == remove_key(old(self).index.sales(), id@)
                &&& final(self).index.pointers() == old(self).index.pointers().filter(
                    |e: (Seq<char>, Seq<char>)| e.1 != id@,
                )
                &&& final(self).promotions == old(self).promotions
                &&& final(self).promotions_expire == old(self).promotions_expire
                &&& final(self).is_complete == old(self).is_complete
            },
            !(match lookup(old(self).sublists.entries(), id@) {
                Some(t) => now > t.expires,
                None => false,
            }) ==> res == CacheAction::Nothing && *final(self) == *old(self),
    {
        let present = self.sublists.get_at(id, i64::MIN).is_some();
        let valid = self.sublists.get_at(id, now).is_some();
        if present && !valid {
            self.sublists.remove(id);
            self.index.remove_sublist(id);
            CacheAction::ReconcileCache
        } else {
            CacheAction::Nothing
        }
    }

    /// Keep a fetched sub-list while its sale lasts; when it replaces a kept one the cache needs
    /// reconciling.
    pub fn keep_sublist(&mut self, group: WggSaleGroupComplete) -> (res: CacheAction)
        ensures
            res == (if lookup(old(self).sublists.entries(), group.id@) is Some {
                CacheAction::ReconcileCache
            } else {
                CacheAction::Nothing
            }),
            final(self).sublists.entries() == cache_insert(
                old(self).sublists.entries(),
                group.id@,
                Timed { item: group, expires: group.sale_info.sale_validity.valid_until },
                old(self).sublists.spec_capacity(),
            ),
            final(self).promotions == old(self).promotions,
            final(self).promotions_expire == old(self).promotions_expire,
            final(self).index == old(self).index,
            final(self).is_complete == old(self).is_complete,
    {
        let id = group.id.clone();
        let expires = group.sale_info.sale_validity.valid_until;
        let replaced = self.sublists.insert(id, group, expires);
        if replaced {
            CacheAction::ReconcileCache
        } else {
            CacheAction::Nothing
        }
    }

    /// Start a refresh with the `fresh` promotions, given which of the kept promotions were `removed`
    /// and which fresh ones were `added`, see [SaleIndex::start_refresh]; an index that is not usable
    /// is cleared together with the fetched sub-lists. The promotions and the completeness stay as they
    /// are until [ProviderSales::finish_refresh]; `None` means the refresh is already done.
    pub fn start_refresh(&mut self, removed: &Vec<bool>, fresh: &Vec<WggSaleCategory>, added: &Vec<bool>) -> (res:
        Option<Vec<SaleSource>>)
        requires
            removed.len() == old(self).promotions.len(),
            added.len() == fresh.len(),
        ensures
            refresh_started(old(self).index, final(self).index, old(self).promotions@, removed@, fresh@, added@, res),
            final(self).promotions == old(self).promotions,
            final(self).promotions_expire == old(self).promotions_expire,
            final(self).is_complete == old(self).is_complete,
            old(self).index.are_usable() ==> final(self).sublists == old(self).sublists,
            !old(self).index.are_usable() ==> final(self).sublists.entries().len() == 0,
    {
        if !self.index.are_valid() {
            self.sublists.clear();
        }
        self.index.start_refresh(&self.promotions, removed, fresh, added)
    }

    /// Complete a refresh: set the `fetched` sales and rebuild the inverted index (see
    /// [SaleIndex::finish_refresh]), keep the `fresh` promotions until the end of the week of `now`, and
    /// mark the sales complete. Afterwards the index finds exactly the products that some sale lists,
    /// each pointing at a sub-list that lists it.
    pub fn finish_refresh(&mut self, fetched: Vec<(String, SaleInfo)>, fresh: Vec<WggSaleCategory>, now: i64)
        requires
            min_timestamp() <= now <= max_timestamp(),
        ensures
            final(self).index.sales() == upsert_all(
                old(self).index.sales(),
                fetched@.map_values(|e: (String, SaleInfo)| sale_entry_view(e)),
            ),
            final(self).index.pointers() == invert(final(self).index.sales()),
            unique_keys(final(self).index.sales()),
            unique_keys(final(self).index.pointers()),
            forall|p: Seq<char>|
                (#[trigger] lookup(final(self).index.pointers(), p)) is Some <==> listed(
                    final(self).index.sales(),
                    p,
                ),
            forall|p: Seq<char>|
                (#[trigger] lookup(final(self).index.pointers(), p)) matches Some(s) ==> exists|i: int|
                    0 <= i < final(self).index.sales().len() && (#[trigger] final(self).index.sales()[i]).0 == s
                        && final(self).index.sales()[i].1.2.contains(p),
            final(self).promotions == fresh,
            final(self).promotions_expire == Some(promotions_expiry(now as int) as i64),
            final(self).is_complete,
            final(self).sublists == old(self).sublists,
    {
        self.index.finish_refresh(fetched);
        let validity = get_guessed_sale_validity(now);
        self.promotions = fresh;
        self.promotions_expire = Some(validity.valid_until);
        self.is_complete = true;
        proof {
            let sales = self.index.sales();
            assert forall|p: Seq<char>| #[trigger] lookup(self.index.pointers(), p) is Some <==> listed(sales, p) by {
                lemma_invert(sales, p);
            }
            assert forall|p: Seq<char>| (#[trigger] lookup(self.index.pointers(), p)) is Some implies exists|i: int|
                0 <= i < sales.len() && (#[trigger] sales[i]).0 == lookup(self.index.pointers(), p).unwrap()
                    && sales[i].1.2.contains(p) by {
                lemma_invert(sales, p);
            }
            lemma_invert(sales, Seq::empty());
        }
    }
}

} // verus!
