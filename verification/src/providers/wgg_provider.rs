use vstd::prelude::*;

use crate::providers::error::ProviderError;
use crate::providers::models::{Provider, WggSaleCategory, WggSaleItem, WggSearchProduct};
use crate::providers::pagination::OffsetPagination;

verus! {

// ** Which providers are active **

/// The providers in the order they are asked: Picnic when it was initialised, then Jumbo (which always
/// is).
pub open spec fn spec_active_providers(picnic_initialised: bool) -> Seq<Provider> {
    if picnic_initialised {
        seq![Provider::Picnic, Provider::Jumbo]
    } else {
        seq![Provider::Jumbo]
    }
}

/// The active providers, in the order they are asked, see [spec_active_providers].
pub fn active_providers(picnic_initialised: bool) -> (res: Vec<Provider>)
    ensures
        res@ == spec_active_providers(picnic_initialised),
{
    let mut res: Vec<Provider> = Vec::new();
    if picnic_initialised {
        res.push(Provider::Picnic);
    }
    res.push(Provider::Jumbo);
    proof {
        assert(res@ =~= spec_active_providers(picnic_initialised));
    }
    res
}

/// A walk over the active providers, in the order they are asked: Picnic when it was initialised, then
/// Jumbo. Once it is done it keeps answering `None`.
pub struct ProvidersIter {
    picnic_initialised: bool,
    yielded: usize,
}

impl ProvidersIter {
    #[verifier::type_invariant]
    spec fn within_providers(self) -> bool {
        self.yielded <= spec_active_providers(self.picnic_initialised).len()
    }

    /// The providers that the walk has yet to give, in order.
    pub closed spec fn remaining(self) -> Seq<Provider> {
        spec_active_providers(self.picnic_initialised).skip(self.yielded as int)
    }

    /// A walk over all active providers.
    pub fn new(picnic_initialised: bool) -> (res: ProvidersIter)
        ensures
            res.remaining() == spec_active_providers(picnic_initialised),
    {
        let res = ProvidersIter { picnic_initialised, yielded: 0 };
        proof {
            assert(res.remaining() =~= spec_active_providers(picnic_initialised));
        }
        res
    }

    /// The next provider of the walk, or `None` when all were given (and from then on).
    pub fn next(&mut self) -> (res: Option<Provider>)
        ensures
            old(self).remaining().len() == 0 ==> res is None,
            old(self).remaining().len() == 0 ==> final(self).remaining() == old(self).remaining(),
            old(self).remaining().len() > 0 ==> res == Some(old(self).remaining()[0]),
            old(self).remaining().len() > 0 ==> final(self).remaining() == old(self).remaining().drop_first(),
    {
        proof {
            use_type_invariant(&*self);
        }
        let count: usize = if self.picnic_initialised { 2 } else { 1 };
        if self.yielded < count {
            let provider = if self.picnic_initialised && self.yielded == 0 {
                Provider::Picnic
            } else {
                Provider::Jumbo
            };
            let ghost before = self.remaining();
            self.yielded = self.yielded + 1;
            proof {
                assert(self.remaining() =~= before.drop_first());
            }
            Some(provider)
        } else {
            None
        }
    }
}

/// The provider to ask for `provider`: Jumbo always is available, Picnic only when it was initialised.
pub fn find_provider(provider: Provider, picnic_initialised: bool) -> (res: Result<Provider, ProviderError>)
    ensures
        match provider {
            Provider::Picnic => if picnic_initialised {
                res == Ok::<Provider, ProviderError>(Provider::Picnic)
            } else {
                res == Err::<Provider, ProviderError>(ProviderError::ProviderUninitialised(Provider::Picnic))
            },
            Provider::Jumbo => res == Ok::<Provider, ProviderError>(Provider::Jumbo),
        },
{
    match provider {
        Provider::Picnic => if picnic_initialised {
            Ok(Provider::Picnic)
        } else {
            Err(ProviderError::ProviderUninitialised(Provider::Picnic))
        },
        Provider::Jumbo => Ok(Provider::Jumbo),
    }
}

// ** Results of all providers **

/// The successful pages among results, in order.
pub open spec fn ok_pages(results: Seq<Result<OffsetPagination<WggSearchProduct>, ProviderError>>) -> Seq<
    OffsetPagination<WggSearchProduct>,
>
    decreases results.len(),
{
    if results.len() == 0 {
        seq![]
    } else {
        match results.last() {
            Ok(p) => ok_pages(results.drop_last()).push(p),
            Err(_) => ok_pages(results.drop_last()),
        }
    }
}

/// The items of pages, one page after the other.
pub open spec fn page_items(pages: Seq<OffsetPagination<WggSearchProduct>>) -> Seq<WggSearchProduct>
    decreases pages.len(),
{
    if pages.len() == 0 {
        seq![]
    } else {
        page_items(pages.drop_last()) + pages.last().items@
    }
}

/// The sum of the totals of pages.
pub open spec fn page_totals(pages: Seq<OffsetPagination<WggSearchProduct>>) -> int
    decreases pages.len(),
{
    if pages.len() == 0 {
        0
    } else {
        page_totals(pages.drop_last()) + pages.last().total_items
    }
}

/// The search results of all providers as one page: the items of every successful page in order and
/// the sum of their totals; the merged page lists no offset (0). Failed providers are left out; nothing
/// found when none succeeded.
pub fn merge_search_results(results: Vec<Result<OffsetPagination<WggSearchProduct>, ProviderError>>) -> (res: Result<
    OffsetPagination<WggSearchProduct>,
    ProviderError,
>)
    requires
        page_totals(ok_pages(results@)) <= usize::MAX,
    ensures
        ({
            let pages = ok_pages(results@);
            if pages.len() == 0 {
                res == Err::<OffsetPagination<WggSearchProduct>, ProviderError>(ProviderError::NothingFound)
            } else {
                res matches Ok(page) && page.items@ == page_items(pages) && page.total_items == page_totals(pages)
                    && page.offset == 0
            }
        }),
{
    let ghost rs = results@;
    let mut rest = results;
    let mut merged: Option<OffsetPagination<WggSearchProduct>> = None;
    let mut k: usize = 0;
    proof {
        assert(rs.skip(0) =~= rs);
        assert(rs.len() == rest.len());
        assert(ok_pages(rs.take(0)) =~= Seq::<OffsetPagination<WggSearchProduct>>::empty());
    }
    while rest.len() > 0
        invariant
            k + rest.len() == rs.len(),
            rs.len() <= usize::MAX,
            rest@ == rs.skip(k as int),
            page_totals(ok_pages(rs)) <= usize::MAX,
            ({
                let pages = ok_pages(rs.take(k as int));
                match merged {
                    None => pages.len() == 0,
                    Some(page) => pages.len() > 0 && page.items@ == page_items(pages) && page.total_items
                        == page_totals(pages),
                }
            }),
        decreases rest.len(),
    {
        let r = rest.remove(0);
        proof {
            assert(rest@ =~= rs.skip(k + 1));
            assert(r == rs[k as int]);
            assert(rs.take(k + 1).drop_last() =~= rs.take(k as int));
            assert(rs.take(k + 1).last() == rs[k as int]);
            lemma_totals_prefix(rs, k + 1);
        }
        match r {
            Ok(mut page) => {
                let ghost pg = page;
                proof {
                    let pages = ok_pages(rs.take(k + 1));
                    assert(pages == ok_pages(rs.take(k as int)).push(pg));
                    assert(pages.drop_last() =~= ok_pages(rs.take(k as int)));
                    assert(page_totals(pages) == page_totals(ok_pages(rs.take(k as int))) + pg.total_items);
                    lemma_totals_nonneg(ok_pages(rs.take(k as int)));
                }
                merged = match merged {
                    None => {
                        proof {
                            assert(ok_pages(rs.take(k as int)).len() == 0);
                            assert(ok_pages(rs.take(k + 1)).drop_last().len() == 0);
                            assert(page_items(ok_pages(rs.take(k + 1)).drop_last()) =~= Seq::<WggSearchProduct>::empty());
                            assert(page_items(ok_pages(rs.take(k + 1))) =~= pg.items@);
                        }
                        Some(page)
                    },
                    Some(mut accum) => {
                        accum.items.append(&mut page.items);
                        accum.total_items = accum.total_items + page.total_items;
                        Some(accum)
                    },
                };
            },
            Err(_) => {},
        }
        k = k + 1;
    }
    proof {
        assert(rs.take(k as int) =~= rs);
    }
    match merged {
        Some(mut page) => {
            page.offset = 0;
            Ok(page)
        },
        None => Err(ProviderError::NothingFound),
    }
}

proof fn lemma_totals_nonneg(pages: Seq<OffsetPagination<WggSearchProduct>>)
    ensures
        page_totals(pages) >= 0,
    decreases pages.len(),
{
    if pages.len() > 0 {
        lemma_totals_nonneg(pages.drop_last());
    }
}

/// The totals of the pages of a prefix of the results are at most those of all results.
proof fn lemma_totals_prefix(rs: Seq<Result<OffsetPagination<WggSearchProduct>, ProviderError>>, n: int)
    requires
        0 <= n <= rs.len(),
    ensures
        page_totals(ok_pages(rs.take(n))) <= page_totals(ok_pages(rs)),
    decreases rs.len() - n,
{
    if n < rs.len() {
        lemma_totals_prefix(rs, n + 1);
        assert(rs.take(n + 1).drop_last() =~= rs.take(n));
        match rs.take(n + 1).last() {
            Ok(p) => {
                assert(ok_pages(rs.take(n + 1)).drop_last() =~= ok_pages(rs.take(n)));
            },
            Err(_) => {},
        }
    } else {
        assert(rs.take(n) =~= rs);
    }
}

/// The successful promotion lists among results, in order.
pub open spec fn ok_promotions(results: Seq<Result<Vec<WggSaleCategory>, ProviderError>>) -> Seq<WggSaleCategory>
    decreases results.len(),
{
    if results.len() == 0 {
        seq![]
    } else {
        match results.last() {
            Ok(v) => ok_promotions(results.drop_last()) + v@,
            Err(_) => ok_promotions(results.drop_last()),
        }
    }
}

/// Whether some result succeeded.
pub open spec fn any_ok<T>(results: Seq<Result<T, ProviderError>>) -> bool {
    exists|i: int| 0 <= i < results.len() && (#[trigger] results[i]) is Ok
}

/// The promotions of all providers as one list: those of every successful provider, in order; nothing
/// found when none succeeded.
pub fn merge_promotions(results: Vec<Result<Vec<WggSaleCategory>, ProviderError>>) -> (res: Result<
    Vec<WggSaleCategory>,
    ProviderError,
>)
    ensures
        any_ok(results@) ==> (res matches Ok(v) && v@ == ok_promotions(results@)),
        !any_ok(results@) ==> res == Err::<Vec<WggSaleCategory>, ProviderError>(ProviderError::NothingFound),
{
    let ghost rs = results@;
    let mut rest = results;
    let mut merged: Option<Vec<WggSaleCategory>> = None;
    let mut k: usize = 0;
    proof {
        assert(rs.skip(0) =~= rs);
        assert(rs.len() == rest.len());
    }
    while rest.len() > 0
        invariant
            k + rest.len() == rs.len(),
            rs.len() <= usize::MAX,
            rest@ == rs.skip(k as int),
            match merged {
                None => !any_ok(rs.take(k as int)) && ok_promotions(rs.take(k as int)).len() == 0,
                Some(v) => any_ok(rs.take(k as int)) && v@ == ok_promotions(rs.take(k as int)),
            },
        decreases rest.len(),
    {
        let r = rest.remove(0);
        proof {
            assert(rest@ =~= rs.skip(k + 1));
            assert(r == rs[k as int]);
            assert(rs.take(k + 1).drop_last() =~= rs.take(k as int));
            assert(rs.take(k + 1).last() == rs[k as int]);
            assert(rs.take(k + 1)[k as int] == r);
            if any_ok(rs.take(k as int)) {
                let i = choose|i: int| 0 <= i < k && (#[trigger] rs.take(k as int)[i]) is Ok;
                assert(rs.take(k + 1)[i] == rs.take(k as int)[i]);
            }
            if !any_ok(rs.take(k as int)) && r is Err {
                assert forall|i: int| 0 <= i < k + 1 implies !(#[trigger] rs.take(k + 1)[i] is Ok) by {
                    if i < k {
                        assert(rs.take(k + 1)[i] == rs.take(k as int)[i]);
                    }
                }
            }
        }
        match r {
            Ok(mut v) => {
                merged = match merged {
                    None => {
                        proof {
                            assert(ok_promotions(rs.take(k + 1)) =~= v@);
                        }
                        Some(v)
                    },
                    Some(mut accum) => {
                        accum.append(&mut v);
                        Some(accum)
                    },
                };
            },
            Err(_) => {},
        }
        k = k + 1;
    }
    proof {
        assert(rs.take(k as int) =~= rs);
    }
    match merged {
        Some(v) => Ok(v),
        None => Err(ProviderError::NothingFound),
    }
}

/// The products listed directly in sale categories, in order (those worth keeping for later searches).
pub open spec fn sale_products(cs: Seq<WggSaleCategory>) -> Seq<WggSearchProduct>
    decreases cs.len(),
{
    if cs.len() == 0 {
        seq![]
    } else {
        sale_products(cs.drop_last()) + item_products(cs.last().items@)
    }
}

/// The products among sale items, in order.
pub open spec fn item_products(items: Seq<WggSaleItem>) -> Seq<WggSearchProduct>
    decreases items.len(),
{
    if items.len() == 0 {
        seq![]
    } else {
        item_products(items.drop_last()) + match items.last() {
            WggSaleItem::Product(p) => seq![p],
            _ => seq![],
        }
    }
}

/// The ids of the products listed directly in sale categories, in order.
pub fn sale_product_ids(categories: &Vec<WggSaleCategory>) -> (res: Vec<String>)
    ensures
        res@.map_values(|s: String| s@) == sale_products(categories@).map_values(|p: WggSearchProduct| p.id@),
{
    let mut res: Vec<String> = Vec::new();
    let mut c: usize = 0;
    proof {
        assert(res@.map_values(|s: String| s@) =~= sale_products(categories@.take(0)).map_values(
            |p: WggSearchProduct| p.id@,
        ));
    }
    while c < categories.len()
        invariant
            c <= categories.len(),
            res@.map_values(|s: String| s@) == sale_products(categories@.take(c as int)).map_values(
                |p: WggSearchProduct| p.id@,
            ),
        decreases categories.len() - c,
    {
        proof {
            assert(categories@.take(c + 1).drop_last() =~= categories@.take(c as int));
            assert(categories@.take(c + 1).last() == categories@[c as int]);
        }
        let items = &categories[c].items;
        let ghost start = sale_products(categories@.take(c as int));
        let mut i: usize = 0;
        proof {
            assert(start + item_products(items@.take(0)) =~= start);
        }
        while i < items.len()
            invariant
                i <= items.len(),
                res@.map_values(|s: String| s@) == (start + item_products(items@.take(i as int))).map_values(
                    |p: WggSearchProduct| p.id@,
                ),
            decreases items.len() - i,
        {
            proof {
                assert(items@.take(i + 1).drop_last() =~= items@.take(i as int));
                assert(items@.take(i + 1).last() == items@[i as int]);
            }
            let ghost prev = res@;
            match &items[i] {
                WggSaleItem::Product(p) => {
                    let id = p.id.clone();
                    res.push(id);
                    proof {
                        assert(res@.map_values(|s: String| s@) =~= prev.map_values(|s: String| s@).push(id@));
                        assert((start + item_products(items@.take(i + 1))).map_values(|p: WggSearchProduct| p.id@)
                            =~= (start + item_products(items@.take(i as int))).map_values(|p: WggSearchProduct| p.id@).push(
                            p.id@,
                        ));
                    }
                },
                WggSaleItem::Group(_) => {
                    proof {
                        assert(start + item_products(items@.take(i + 1)) =~= start + item_products(items@.take(i as int)));
                    }
                },
            }
            i = i + 1;
        }
        proof {
            assert(items@.take(items.len() as int) =~= items@);
        }
        c = c + 1;
    }
    proof {
        assert(categories@.take(categories.len() as int) =~= categories@);
    }
    res
}


/// A map of providers, each to a default value, in the order given.
pub fn get_default_provider_map<T: Default>(providers: &Vec<Provider>) -> (res: Vec<(Provider, T)>)
    ensures
        res@.len() == providers@.len(),
        forall|i: int| 0 <= i < res@.len() ==> (#[trigger] res@[i]).0 == providers@[i],
{
    let mut res: Vec<(Provider, T)> = Vec::new();
    let mut i: usize = 0;
    while i < providers.len()
        invariant
            i <= providers.len(),
            res@.len() == i,
            forall|j: int| 0 <= j < i ==> (#[trigger] res@[j]).0 == providers@[j],
        decreases providers.len() - i,
    {
        res.push((providers[i], T::default()));
        i = i + 1;
    }
    res
}

} // verus!
