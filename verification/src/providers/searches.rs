use vstd::prelude::*;

use crate::jumbo::ids::{Id, RuntimeId, TabId};
use crate::jumbo::models::{PartialProduct, ProductList, Promotion, PromotionCategory, PromotionTabs};
use crate::picnic::models::{SearchItem, SearchResult, SingleArticle, Suggestion};
use crate::providers::common_bridge::{max_timestamp, min_timestamp};
use crate::providers::error::ProviderError;
use crate::providers::jumbo_bridge::opt_sale_info_view;
use crate::providers::jumbo_products::{jumbo_search_item_of, parse_jumbo_item_to_search_item, spec_promotion_sale_info};
use crate::providers::jumbo_promotions::{jumbo_group_of, parse_jumbo_promotion, promotion_sale_view};
use crate::providers::models::{Provider, WggAutocomplete, WggSaleCategory, WggSaleGroupLimited, WggSaleItem, WggSearchProduct};
use crate::providers::pagination::OffsetPagination;
use crate::providers::picnic_products::{
    article_supported, parse_picnic_item_to_search_item_at, picnic_search_item_of,
};
use crate::text::{chars_of, contains_seq, spec_contains_seq};

verus! {

// ** Autocomplete **

/// The autocomplete terms that hold the query, in order.
pub open spec fn matching_terms(terms: Seq<Seq<char>>, query: Seq<char>) -> Seq<Seq<char>> {
    terms.filter(|t: Seq<char>| spec_contains_seq(t, query))
}

/// The Jumbo autocomplete terms that hold `query`, in order.
pub fn filter_autocomplete(terms: &Vec<String>, query: &str) -> (res: Vec<WggAutocomplete>)
    ensures
        res@.map_values(|a: WggAutocomplete| a.name@) == matching_terms(terms@.map_values(|t: String| t@), query@),
{
    let ghost tv = terms@.map_values(|t: String| t@);
    let ghost keep = |t: Seq<char>| spec_contains_seq(t, query@);
    let q = chars_of(query);
    let mut res: Vec<WggAutocomplete> = Vec::new();
    let mut i: usize = 0;
    while i < terms.len()
        invariant
            i <= terms.len(),
            tv == terms@.map_values(|t: String| t@),
            keep == (|t: Seq<char>| spec_contains_seq(t, query@)),
            q@ == query@,
            res@.map_values(|a: WggAutocomplete| a.name@) == tv.take(i as int).filter(keep),
        decreases terms.len() - i,
    {
        proof {
            reveal(Seq::filter);
            assert(tv.take(i + 1).drop_last() =~= tv.take(i as int));
            assert(tv.take(i + 1).last() == terms@[i as int]@);
        }
        let t = chars_of(terms[i].as_str());
        if contains_seq(&t, &q) {
            let item = WggAutocomplete { name: terms[i].clone() };
            let ghost prev = res@;
            res.push(item);
            proof {
                assert(res@.map_values(|a: WggAutocomplete| a.name@) =~= prev.map_values(|a: WggAutocomplete| a.name@).push(
                    item.name@,
                ));
            }
        }
        i = i + 1;
    }
    proof {
        assert(tv.take(terms.len() as int) =~= tv);
    }
    res
}

/// Picnic's search suggestions as autocomplete terms, in order.
pub fn autocomplete_from_suggestions(suggestions: Vec<Suggestion>) -> (res: Vec<WggAutocomplete>)
    ensures
        res@.map_values(|a: WggAutocomplete| a.name) == suggestions@.map_values(|s: Suggestion| s.suggestion),
{
    let ghost want = suggestions@.map_values(|s: Suggestion| s.suggestion);
    let mut rest = suggestions;
    let mut res: Vec<WggAutocomplete> = Vec::new();
    let mut k: usize = 0;
    proof {
        assert(want.skip(0) =~= want);
        assert(want.len() == rest.len());
    }
    while rest.len() > 0
        invariant
            k + rest.len() == want.len(),
            want.len() <= usize::MAX,
            rest@.map_values(|s: Suggestion| s.suggestion) == want.skip(k as int),
            res@.map_values(|a: WggAutocomplete| a.name) == want.take(k as int),
        decreases rest.len(),
    {
        let ghost before = rest@;
        let s = rest.remove(0);
        proof {
            assert(rest@ =~= before.drop_first());
            assert(before.map_values(|s: Suggestion| s.suggestion)[0] == s.suggestion);
            assert(want.skip(k + 1) =~= want.skip(k as int).drop_first());
            assert(rest@.map_values(|s: Suggestion| s.suggestion) =~= before.map_values(|s: Suggestion| s.suggestion).drop_first());
        }
        let ghost prev = res@;
        let item = WggAutocomplete { name: s.suggestion };
        res.push(item);
        proof {
            assert(want.skip(k as int)[0] == want[k as int]);
            assert(want.take(k + 1) =~= want.take(k as int).push(want[k as int]));
            assert(res@.map_values(|a: WggAutocomplete| a.name) =~= prev.map_values(|a: WggAutocomplete| a.name).push(item.name));
        }
        k = k + 1;
    }
    proof {
        assert(want.take(k as int) =~= want);
    }
    res
}

// ** Jumbo search and promotions **

/// Whether `items` are the search items of `data`.
pub open spec fn jumbo_items_of(items: Seq<WggSearchProduct>, data: Seq<PartialProduct>) -> bool {
    &&& items.len() == data.len()
    &&& forall|i: int|
        0 <= i < items.len() ==> {
            &&& jumbo_search_item_of(#[trigger] items[i], data[i])
            &&& opt_sale_info_view(items[i].sale_information) == spec_promotion_sale_info(data[i].promotion)
        }
}

/// A page of Jumbo search results: every product as a search item, with Jumbo's total and offset.
pub fn jumbo_search_page(list: ProductList) -> (res: OffsetPagination<WggSearchProduct>)
    ensures
        jumbo_items_of(res.items@, list.products.data@),
        res.total_items == list.products.total as usize,
        res.offset == list.products.offset,
{
    let ghost data = list.products.data@;
    let mut rest = list.products.data;
    let mut items: Vec<WggSearchProduct> = Vec::new();
    let mut k: usize = 0;
    proof {
        assert(data.skip(0) =~= data);
        assert(data.len() == rest.len());
    }
    while rest.len() > 0
        invariant
            k + rest.len() == data.len(),
            data.len() <= usize::MAX,
            rest@ == data.skip(k as int),
            items@.len() == k,
            forall|i: int|
                0 <= i < k ==> {
                    &&& jumbo_search_item_of(#[trigger] items@[i], data[i])
                    &&& opt_sale_info_view(items@[i].sale_information) == spec_promotion_sale_info(data[i].promotion)
                },
        decreases rest.len(),
    {
        let article = rest.remove(0);
        proof {
            assert(rest@ =~= data.skip(k + 1));
            assert(article == data[k as int]);
        }
        let item = parse_jumbo_item_to_search_item(article);
        items.push(item);
        k = k + 1;
    }
    OffsetPagination { items, total_items: list.products.total as usize, offset: list.products.offset }
}

/// The tab of Jumbo promotions that holds all promotions.
pub open spec fn all_promotions_tab() -> Seq<char> {
    "actieprijs"@
}

/// The index of the first tab whose id is `actieprijs`.
pub open spec fn promotion_tab_index(tabs: Seq<crate::jumbo::models::Tab>) -> Option<nat>
    decreases tabs.len(),
{
    if tabs.len() == 0 {
        None
    } else if tabs[0].id.spec_id() == all_promotions_tab() {
        Some(0)
    } else {
        match promotion_tab_index(tabs.drop_first()) {
            Some(i) => Some(i + 1),
            None => None,
        }
    }
}

proof fn lemma_promotion_tab_index(tabs: Seq<crate::jumbo::models::Tab>, i: nat)
    requires
        i <= tabs.len(),
        forall|j: int| 0 <= j < i ==> (#[trigger] tabs[j]).id.spec_id() != all_promotions_tab(),
    ensures
        i < tabs.len() && tabs[i as int].id.spec_id() == all_promotions_tab() ==> promotion_tab_index(tabs) == Some(i),
        i == tabs.len() ==> promotion_tab_index(tabs) is None,
    decreases i,
{
    if i > 0 {
        assert forall|j: int| 0 <= j < i - 1 implies (#[trigger] tabs.drop_first()[j]).id.spec_id() != all_promotions_tab() by {
            assert(tabs.drop_first()[j] == tabs[j + 1]);
        }
        lemma_promotion_tab_index(tabs.drop_first(), (i - 1) as nat);
        assert(tabs[0].id.spec_id() != all_promotions_tab());
        if i < tabs.len() {
            assert(tabs.drop_first()[i - 1] == tabs[i as int]);
        }
    }
}

/// The tab and runtime of Jumbo's current promotions: the first runtime of the `actieprijs` tab; nothing
/// is found without that tab or without a runtime.
pub fn find_promotion_runtime(tabs: &PromotionTabs) -> (res: Result<(TabId, RuntimeId), ProviderError>)
    ensures
        match promotion_tab_index(tabs.tabs@) {
            Some(t) => if tabs.tabs@[t as int].runtimes@.len() > 0 {
                res matches Ok((tab, runtime)) && tab.spec_id() == tabs.tabs@[t as int].id.spec_id()
                    && runtime.spec_id() == tabs.tabs@[t as int].runtimes@[0].id.spec_id()
            } else {
                res == Err::<(TabId, RuntimeId), ProviderError>(ProviderError::NothingFound)
            },
            None => res == Err::<(TabId, RuntimeId), ProviderError>(ProviderError::NothingFound),
        },
{
    let key = chars_of("actieprijs");
    let mut i: usize = 0;
    while i < tabs.tabs.len()
        invariant
            i <= tabs.tabs.len(),
            key@ == all_promotions_tab(),
            forall|j: int| 0 <= j < i ==> (#[trigger] tabs.tabs@[j]).id.spec_id() != all_promotions_tab(),
        decreases tabs.tabs.len() - i,
    {
        let id = chars_of(tabs.tabs[i].id.id());
        if crate::text::chars_eq(&id, &key) {
            proof {
                lemma_promotion_tab_index(tabs.tabs@, i as nat);
            }
            let tab = &tabs.tabs[i];
            if tab.runtimes.len() == 0 {
                return Err(ProviderError::NothingFound);
            }
            let tab_id = TabId::from_id(String::from_str(tab.id.id()));
            let runtime_id = RuntimeId::from_id(String::from_str(tab.runtimes[0].id.id()));
            return Ok((tab_id, runtime_id));
        }
        i = i + 1;
    }
    proof {
        lemma_promotion_tab_index(tabs.tabs@, tabs.tabs.len() as nat);
    }
    Err(ProviderError::NothingFound)
}

/// The promotions that are true sales, as limited sale groups, in order.
pub open spec fn true_sales(ps: Seq<Promotion>) -> Seq<Promotion>
    decreases ps.len(),
{
    if ps.len() == 0 {
        seq![]
    } else if promotion_sale_view(ps.last()) is Some {
        true_sales(ps.drop_last()).push(ps.last())
    } else {
        true_sales(ps.drop_last())
    }
}

/// Whether `items` are the sale groups of the promotions `ps` that are true sales.
pub open spec fn groups_of(items: Seq<WggSaleItem>, ps: Seq<Promotion>) -> bool {
    &&& items.len() == true_sales(ps).len()
    &&& forall|i: int|
        0 <= i < items.len() ==> (#[trigger] items[i] matches WggSaleItem::Group(g) && jumbo_group_of(g, true_sales(ps)[i]))
}

/// Whether `c` is the sale category of a Jumbo promotion category.
pub open spec fn jumbo_category_of(c: WggSaleCategory, pc: PromotionCategory) -> bool {
    &&& c.id is None
    &&& c.name == pc.title
    &&& c.provider == Provider::Jumbo
    &&& groups_of(c.items@, pc.promotions@)
    &&& c.image_urls@.len() == 0
    &&& c.complete
}

/// A Jumbo promotion category as a complete sale category of its true sales.
pub fn jumbo_sale_category(category: PromotionCategory) -> (res: WggSaleCategory)
    ensures
        jumbo_category_of(res, category),
{
    let ghost ps = category.promotions@;
    let mut rest = category.promotions;
    let mut items: Vec<WggSaleItem> = Vec::new();
    let mut k: usize = 0;
    proof {
        assert(ps.skip(0) =~= ps);
        assert(ps.len() == rest.len());
        assert(ps.take(0) =~= Seq::<Promotion>::empty());
    }
    while rest.len() > 0
        invariant
            k + rest.len() == ps.len(),
            ps.len() <= usize::MAX,
            rest@ == ps.skip(k as int),
            groups_of(items@, ps.take(k as int)),
        decreases rest.len(),
    {
        let promotion = rest.remove(0);
        proof {
            assert(rest@ =~= ps.skip(k + 1));
            assert(promotion == ps[k as int]);
            assert(ps.take(k + 1).drop_last() =~= ps.take(k as int));
            assert(ps.take(k + 1).last() == ps[k as int]);
        }
        let ghost prev = items@;
        match parse_jumbo_promotion(promotion) {
            Some(g) => {
                items.push(WggSaleItem::Group(g));
                proof {
                    assert(true_sales(ps.take(k + 1)) == true_sales(ps.take(k as int)).push(ps[k as int]));
                    assert forall|i: int| 0 <= i < items@.len() implies (#[trigger] items@[i] matches WggSaleItem::Group(
                        g,
                    ) && jumbo_group_of(g, true_sales(ps.take(k + 1))[i])) by {
                        if i < prev.len() {
                            assert(items@[i] == prev[i]);
                        }
                    }
                }
            },
            None => {
                proof {
                    assert(true_sales(ps.take(k + 1)) == true_sales(ps.take(k as int)));
                }
            },
        }
        k = k + 1;
    }
    proof {
        assert(ps.take(k as int) =~= ps);
    }
    WggSaleCategory {
        id: None,
        name: category.title,
        items,
        image_urls: Vec::new(),
        complete: true,
        provider: Provider::Jumbo,
    }
}

// ** Picnic search **

/// The articles among search results, in order.
pub open spec fn result_articles(results: Seq<SearchResult>) -> Seq<SingleArticle>
    decreases results.len(),
{
    if results.len() == 0 {
        seq![]
    } else {
        result_articles(results.drop_last()) + item_articles(results.last().items@)
    }
}

/// The articles among search items, in order.
pub open spec fn item_articles(items: Seq<SearchItem>) -> Seq<SingleArticle>
    decreases items.len(),
{
    if items.len() == 0 {
        seq![]
    } else {
        item_articles(items.drop_last()) + match items.last() {
            SearchItem::SingleArticle(a) => seq![a],
            _ => seq![],
        }
    }
}

/// Whether `items` are the search items of `arts` at time `now`.
pub open spec fn picnic_items_of(items: Seq<WggSearchProduct>, arts: Seq<SingleArticle>, now: int) -> bool {
    &&& items.len() == arts.len()
    &&& forall|i: int| 0 <= i < items.len() ==> picnic_search_item_of(#[trigger] items[i], arts[i], now)
}

fn collect_articles(results: Vec<SearchResult>) -> (res: Vec<SingleArticle>)
    ensures
        res@ == result_articles(results@),
{
    let ghost rs = results@;
    let mut rest = results;
    let mut res: Vec<SingleArticle> = Vec::new();
    let mut k: usize = 0;
    proof {
        assert(rs.skip(0) =~= rs);
        assert(rs.len() == rest.len());
        assert(res@ =~= result_articles(rs.take(0)));
    }
    while rest.len() > 0
        invariant
            k + rest.len() == rs.len(),
            rs.len() <= usize::MAX,
            rest@ == rs.skip(k as int),
            res@ == result_articles(rs.take(k as int)),
        decreases rest.len(),
    {
        let result = rest.remove(0);
        proof {
            assert(rest@ =~= rs.skip(k + 1));
            assert(result == rs[k as int]);
            assert(rs.take(k + 1).drop_last() =~= rs.take(k as int));
            assert(rs.take(k + 1).last() == rs[k as int]);
        }
        let ghost items = result.items@;
        let ghost start = res@;
        let mut items_rest = result.items;
        let mut j: usize = 0;
        proof {
            assert(items.skip(0) =~= items);
            assert(items.len() == items_rest.len());
            assert(start + item_articles(items.take(0)) =~= start);
        }
        while items_rest.len() > 0
            invariant
                j + items_rest.len() == items.len(),
                items.len() <= usize::MAX,
                items_rest@ == items.skip(j as int),
                res@ == start + item_articles(items.take(j as int)),
            decreases items_rest.len(),
        {
            let item = items_rest.remove(0);
            proof {
                assert(items_rest@ =~= items.skip(j + 1));
                assert(item == items[j as int]);
                assert(items.take(j + 1).drop_last() =~= items.take(j as int));
                assert(items.take(j + 1).last() == items[j as int]);
            }
            let ghost prev = res@;
            match item {
                SearchItem::SingleArticle(a) => {
                    res.push(a);
                    proof {
                        assert(res@ =~= start + item_articles(items.take(j + 1)));
                    }
                },
                _ => {
                    proof {
                        assert(res@ =~= start + item_articles(items.take(j + 1)));
                    }
                },
            }
            j = j + 1;
        }
        proof {
            assert(items.take(j as int) =~= items);
        }
        k = k + 1;
    }
    proof {
        assert(rs.take(k as int) =~= rs);
    }
    res
}

/// A page of Picnic search results at time `now`: the articles among the results, from `offset` on
/// (Picnic returns everything at once), as search items; the total counts the skipped ones too.
pub fn picnic_search_page_at(results: Vec<SearchResult>, offset: Option<u32>, now: i64) -> (res: OffsetPagination<
    WggSearchProduct,
>)
    requires
        forall|i: int| 0 <= i < result_articles(results@).len() ==> article_supported(#[trigger] result_articles(results@)[i]),
        min_timestamp() <= now <= max_timestamp(),
    ensures
        ({
            let off = match offset {
                Some(o) => o,
                None => 0u32,
            };
            let arts = result_articles(results@);
            let shown = if off <= arts.len() {
                arts.skip(off as int)
            } else {
                seq![]
            };
            &&& res.offset == off
            &&& picnic_items_of(res.items@, shown, now as int)
            &&& res.total_items == shown.len() + off
        }),
{
    let off: u32 = match offset {
        Some(o) => o,
        None => 0,
    };
    let articles = collect_articles(results);
    let ghost arts = articles@;
    let ghost shown = if off <= arts.len() {
        arts.skip(off as int)
    } else {
        Seq::<SingleArticle>::empty()
    };
    let mut rest = articles;
    let mut skipped: usize = 0;
    proof {
        assert(arts.len() == rest.len());
        assert(arts.skip(0) =~= arts);
    }
    while skipped < off as usize && rest.len() > 0
        invariant
            skipped <= off,
            skipped <= arts.len(),
            arts.len() <= usize::MAX,
            rest@ == arts.skip(skipped as int),
        decreases rest.len(),
    {
        rest.remove(0);
        proof {
            assert(rest@ =~= arts.skip(skipped + 1));
        }
        skipped = skipped + 1;
    }
    proof {
        if off <= arts.len() {
            assert(skipped == off);
        } else {
            assert(rest@.len() == 0);
        }
        assert(rest@ =~= shown);
    }
    let ghost todo = rest@;
    let mut items: Vec<WggSearchProduct> = Vec::new();
    let mut k: usize = 0;
    proof {
        assert(todo.skip(0) =~= todo);
    }
    while rest.len() > 0
        invariant
            k + rest.len() == todo.len(),
            todo.len() <= usize::MAX,
            todo == shown,
            rest@ == todo.skip(k as int),
            forall|i: int| 0 <= i < arts.len() ==> article_supported(#[trigger] arts[i]),
            off <= arts.len() ==> shown == arts.skip(off as int),
            off > arts.len() ==> shown.len() == 0,
            min_timestamp() <= now <= max_timestamp(),
            items@.len() == k,
            forall|i: int| 0 <= i < k ==> picnic_search_item_of(#[trigger] items@[i], todo[i], now as int),
        decreases rest.len(),
    {
        let article = rest.remove(0);
        proof {
            assert(rest@ =~= todo.skip(k + 1));
            assert(article == todo[k as int]);
            assert(arts[off + k] == todo[k as int]);
        }
        let item = parse_picnic_item_to_search_item_at(article, now);
        items.push(item);
        k = k + 1;
    }
    proof {
        assert(u32::MAX <= usize::MAX);
    }
    let total = items.len() + off as usize;
    OffsetPagination { items, total_items: total, offset: off }
}

} // verus!
