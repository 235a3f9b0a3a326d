use vstd::prelude::*;

use crate::jumbo::ids::{Id, ProductId as JumboProductId};
use crate::jumbo::models::{PartialProduct, ProductList, Promotion};
use crate::providers::error::ProviderError;
use crate::providers::jumbo_bridge::{
    opt_sale_info_view, parse_promotion_to_sale_info, sale_info_view, spec_sale_info, str_views,
};
use crate::providers::jumbo_products::{jumbo_search_item_of, parse_jumbo_item_to_search_item};
use crate::providers::models::{
    ProductIdT, Provider, SaleInformation, SaleValidity, WggSaleGroupComplete, WggSaleGroupLimited,
    WggSearchProduct,
};

verus! {

/// A copy of a sale information.
pub fn clone_sale_info(s: &SaleInformation) -> (res: SaleInformation)
    ensures
        sale_info_view(res) == sale_info_view(*s),
{
    let mut additional_label: Vec<String> = Vec::new();
    let mut i: usize = 0;
    while i < s.additional_label.len()
        invariant
            i <= s.additional_label.len(),
            str_views(additional_label@) == str_views(s.additional_label@).take(i as int),
        decreases s.additional_label.len() - i,
    {
        let t = s.additional_label[i].clone();
        let ghost prev = additional_label@;
        additional_label.push(t);
        proof {
            assert(additional_label@ == prev.push(t));
            assert(str_views(s.additional_label@).take(i + 1) =~= str_views(s.additional_label@).take(
                i as int,
            ).push(s.additional_label@[i as int]@));
            assert(str_views(additional_label@) =~= str_views(prev).push(t@));
        }
        i = i + 1;
    }
    proof {
        assert(str_views(s.additional_label@).take(s.additional_label.len() as int) =~= str_views(
            s.additional_label@,
        ));
    }
    SaleInformation {
        label: s.label.clone(),
        additional_label,
        sale_validity: s.sale_validity,
        sale_type: s.sale_type,
    }
}

/// The validity period of a promotion.
pub open spec fn promotion_validity(p: Promotion) -> SaleValidity {
    SaleValidity { valid_from: p.start_date, valid_until: p.end_date }
}

/// The sale information of a promotion: what its tags give over its validity period.
pub open spec fn promotion_sale_view(p: Promotion) -> Option<
    (Seq<char>, Seq<Seq<char>>, SaleValidity, Option<crate::providers::models::SaleType>),
> {
    spec_sale_info(str_views(p.tags@), promotion_validity(p))
}

/// The ids of the products of a promotion.
pub open spec fn promotion_product_ids(p: Promotion) -> Seq<Seq<char>> {
    p.products@.map_values(|id: JumboProductId| id.spec_id())
}

/// Whether `g` is the limited sale group of promotion `p` (whose sale information exists).
pub open spec fn jumbo_group_of(g: WggSaleGroupLimited, p: Promotion) -> bool {
    &&& g.id@ == p.id.spec_id()
    &&& g.name == p.title
    &&& g.image_urls@ == seq![p.image.url]
    &&& g.items@.map_values(|i: ProductIdT| i.id@) == promotion_product_ids(p)
    &&& promotion_sale_view(p) == Some(sale_info_view(g.sale_info))
    &&& g.sale_description == p.subtitle
    &&& g.provider == Provider::Jumbo
}

fn product_ids(products: Vec<JumboProductId>) -> (res: Vec<ProductIdT>)
    ensures
        res@.map_values(|i: ProductIdT| i.id@) == products@.map_values(|id: JumboProductId| id.spec_id()),
{
    let ghost ids = products@.map_values(|id: JumboProductId| id.spec_id());
    let mut rest = products;
    let mut res: Vec<ProductIdT> = Vec::new();
    let mut k: usize = 0;
    proof {
        assert(ids.skip(0) =~= ids);
        assert(ids.len() == rest.len());
        assert(res@.map_values(|i: ProductIdT| i.id@) =~= ids.take(0));
    }
    while rest.len() > 0
        invariant
            k + rest.len() == ids.len(),
            ids.len() <= usize::MAX,
            rest@.map_values(|id: JumboProductId| id.spec_id()) == ids.skip(k as int),
            res@.map_values(|i: ProductIdT| i.id@) == ids.take(k as int),
        decreases rest.len(),
    {
        let ghost before = rest@;
        let id = rest.remove(0);
        proof {
            assert(rest@ =~= before.drop_first());
            assert(before.map_values(|id: JumboProductId| id.spec_id())[0] == id.spec_id());
            assert(ids.skip(k + 1) =~= ids.skip(k as int).drop_first());
            assert(rest@.map_values(|id: JumboProductId| id.spec_id()) =~= before.map_values(
                |id: JumboProductId| id.spec_id(),
            ).drop_first());
        }
        let ghost prev = res@;
        let item = ProductIdT { id: id.into_string() };
        res.push(item);
        proof {
            assert(ids.skip(k as int)[0] == ids[k as int]);
            assert(ids.take(k + 1) =~= ids.take(k as int).push(ids[k as int]));
            assert(res@.map_values(|i: ProductIdT| i.id@) =~= prev.map_values(|i: ProductIdT| i.id@).push(
                item.id@,
            ));
        }
        k = k + 1;
    }
    proof {
        assert(ids.take(k as int) =~= ids);
    }
    res
}

/// Parse a Jumbo [Promotion] to a limited sale group; `None` when its tags give no sale information.
///
/// Jumbo has a tendency to include items that are not on sale in its sale listings (such as "Ronde
/// prijs!"); those have no tags and give `None`.
pub fn parse_jumbo_promotion(promotion: Promotion) -> (res: Option<WggSaleGroupLimited>)
    ensures
        res is None <==> promotion_sale_view(promotion) is None,
        res matches Some(g) ==> jumbo_group_of(g, promotion),
{
    let ghost p = promotion;
    let sale_info = match parse_promotion_to_sale_info(
        &promotion.tags,
        SaleValidity { valid_from: promotion.start_date, valid_until: promotion.end_date },
    ) {
        Some(info) => info,
        None => return None,
    };
    let mut image_urls: Vec<String> = Vec::new();
    image_urls.push(promotion.image.url);
    proof {
        assert(image_urls@ =~= seq![p.image.url]);
    }
    let items = product_ids(promotion.products);
    Some(
        WggSaleGroupLimited {
            id: promotion.id.into_string(),
            name: promotion.title,
            image_urls,
            items,
            sale_info,
            sale_description: promotion.subtitle,
            provider: Provider::Jumbo,
        },
    )
}

/// The message of the error for a promotion that is not a true sale.
pub open spec fn faux_sale_message() -> Seq<char> {
    "Provided list is not a true sale (may be a faux-sale!)"@
}

/// Whether `items` are the search items of `data`, each with the sale information `sale`.
pub open spec fn items_with_sale(
    items: Seq<WggSearchProduct>,
    data: Seq<PartialProduct>,
    sale: SaleInformation,
) -> bool {
    &&& items.len() == data.len()
    &&& forall|i: int|
        0 <= i < items.len() ==> {
            &&& jumbo_search_item_of(#[trigger] items[i], data[i])
            &&& opt_sale_info_view(items[i].sale_information) == Some(sale_info_view(sale))
        }
}

/// Parse a Jumbo [Promotion] and the list of its products to a complete sale group. Jumbo does not put
/// the sale information on the products of a promotion, so each product gets the promotion's.
///
/// A promotion whose tags give no sale information is not a true sale: an error.
pub fn parse_jumbo_promotion_complete(promotion: Promotion, product_list: ProductList) -> (res: Result<
    WggSaleGroupComplete,
    ProviderError,
>)
    ensures
        res is Err <==> promotion_sale_view(promotion) is None,
        res matches Err(e) ==> e matches ProviderError::Other(m) && m@ == faux_sale_message(),
        res matches Ok(g) ==> {
            &&& g.id@ == promotion.id.spec_id()
            &&& g.name == promotion.title
            &&& g.image_urls@ == seq![promotion.image.url]
            &&& promotion_sale_view(promotion) == Some(sale_info_view(g.sale_info))
            &&& g.sale_description == promotion.subtitle
            &&& g.provider == Provider::Jumbo
            &&& items_with_sale(g.items@, product_list.products.data@, g.sale_info)
        },
{
    let promo = match parse_jumbo_promotion(promotion) {
        Some(p) => p,
        None => {
            return Err(
                ProviderError::Other(
                    String::from_str("Provided list is not a true sale (may be a faux-sale!)"),
                ),
            );
        },
    };
    let ghost data = product_list.products.data@;
    let mut rest = product_list.products.data;
    let mut items: Vec<WggSearchProduct> = Vec::new();
    let mut k: usize = 0;
    proof {
        assert(data.skip(0) =~= data);
        assert(data.len() == rest.len());
    }
    while rest.len() > 0
        invariant
            k + rest.len() == data.len(),
            data.len() <= usize::MAX,
            rest@ == data.skip(k as int),
            items@.len() == k,
            forall|i: int|
                0 <= i < k ==> {
                    &&& jumbo_search_item_of(#[trigger] items@[i], data[i])
                    &&& opt_sale_info_view(items@[i].sale_information) == Some(sale_info_view(promo.sale_info))
                },
        decreases rest.len(),
    {
        let ghost before = rest@;
        let article = rest.remove(0);
        proof {
            assert(rest@ =~= data.skip(k + 1));
            assert(article == data[k as int]);
        }
        let mut item = parse_jumbo_item_to_search_item(article);
        item.sale_information = Some(clone_sale_info(&promo.sale_info));
        items.push(item);
        k = k + 1;
    }
    Ok(
        WggSaleGroupComplete {
            id: promo.id,
            name: promo.name,
            image_urls: promo.image_urls,
            items,
            sale_info: promo.sale_info,
            sale_description: promo.sale_description,
            provider: promo.provider,
        },
    )
}

} // verus!
