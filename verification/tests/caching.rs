use wgg::caching::{SearchProductHit, TimedCache, WggProviderCache};
use wgg::numbers::Decimal;
use wgg::providers::models::{
    PriceInfo, Provider, SaleInformation, SaleValidity, UnavailableItem, UnavailableReason, Unit, UnitQuantity,
    WggDecorator, WggSaleCategory, WggSaleGroupComplete, WggSearchProduct,
};
use wgg::sale_resolver::{CacheAction, ProviderSales, SaleInfo};

const NOW: i64 = 1715000000; // Monday 2024-05-06 12:53:20 UTC

fn product(id: &str) -> WggSearchProduct {
    WggSearchProduct {
        id: id.to_string(),
        name: format!("Product {id}"),
        price_info: PriceInfo { display_price: 100, original_price: 120, unit_price: None },
        unit_quantity: UnitQuantity { unit: Unit::Piece, amount: Decimal::whole(1) },
        unavailable_details: None,
        image_url: None,
        decorators: vec![],
        sale_information: None,
        provider: Provider::Jumbo,
    }
}

fn group(id: &str, valid_until: i64) -> WggSaleGroupComplete {
    WggSaleGroupComplete {
        id: id.to_string(),
        name: "Alle melk".to_string(),
        image_urls: vec![],
        items: vec![product("a"), product("b")],
        sale_info: SaleInformation {
            label: "1 + 1 gratis".to_string(),
            additional_label: vec![],
            sale_validity: SaleValidity { valid_from: 0, valid_until },
            sale_type: None,
        },
        sale_description: None,
        provider: Provider::Jumbo,
    }
}

#[test]
fn timed_cache_keeps_items_until_they_expire() {
    let mut cache: TimedCache<u32> = TimedCache::new(10);
    assert!(!cache.insert("a".to_string(), 1, 100));
    assert_eq!(cache.get_at("a", 100), Some(&1));
    assert_eq!(cache.get_at("a", 101), None);
    assert_eq!(cache.get_at("b", 50), None);
    assert!(cache.insert("a".to_string(), 2, 200));
    assert_eq!(cache.get_at("a", 150), Some(&2));
    assert_eq!(cache.len(), 1);
    cache.remove("a");
    assert_eq!(cache.get_at("a", 150), None);
}

#[test]
fn timed_cache_evicts_the_oldest_when_full() {
    let mut cache: TimedCache<u32> = TimedCache::new(2);
    cache.insert("a".to_string(), 1, 100);
    cache.insert("b".to_string(), 2, 100);
    // Inserting "a" again makes it the newest, so "b" is now the oldest.
    cache.insert("a".to_string(), 3, 100);
    cache.insert("c".to_string(), 4, 100);
    assert_eq!(cache.len(), 2);
    assert_eq!(cache.get_at("b", 0), None);
    assert_eq!(cache.get_at("a", 0), Some(&3));
    assert_eq!(cache.get_at("c", 0), Some(&4));
}

#[test]
fn product_cache_falls_back_to_full_products_and_expires() {
    let mut cache = WggProviderCache::new(86400, 1000);
    cache.insert_search_product_at(Provider::Jumbo, product("a"), NOW);
    match cache.get_search_product_at(Provider::Jumbo, "a", NOW + 10) {
        SearchProductHit::Search(p) => assert_eq!(p.id, "a"),
        _ => panic!("expected a search product"),
    }
    assert!(matches!(cache.get_search_product_at(Provider::Picnic, "a", NOW), SearchProductHit::Miss));
    // Kept for a day: the last valid second is NOW + 86399.
    assert!(matches!(cache.get_search_product_at(Provider::Jumbo, "a", NOW + 86399), SearchProductHit::Search(_)));
    assert!(matches!(cache.get_search_product_at(Provider::Jumbo, "a", NOW + 86400), SearchProductHit::Miss));
    cache.invalidate_expired_at(Provider::Jumbo, "a", NOW + 86400);
    assert!(matches!(cache.get_search_product_at(Provider::Jumbo, "a", NOW), SearchProductHit::Miss));
}

#[test]
fn copies_of_products_are_equal() {
    let mut p = product("a");
    p.decorators = vec![WggDecorator::Unavailable(UnavailableItem {
        reason: UnavailableReason::OutOfSeason,
        explanation_short: Some("Niet in seizoen".to_string()),
        explanation_long: None,
        replacements: vec![product("b")],
    })];
    assert_eq!(p.clone(), p);
    let g = group("g", 10);
    assert_eq!(g.clone(), g);
}

#[test]
fn kept_promotions_last_until_the_end_of_the_week() {
    let mut sales = ProviderSales::new();
    assert!(sales.cached_promotions_at(NOW).is_none());
    assert_eq!(sales.expire_promotions_at(NOW), CacheAction::Nothing);
    let promotions = vec![WggSaleCategory {
        id: Some("c".to_string()),
        name: "Melk".to_string(),
        items: vec![],
        image_urls: vec![],
        complete: true,
        provider: Provider::Jumbo,
    }];
    assert_eq!(sales.insert_promotions_at(promotions, NOW), CacheAction::ReconcileCache);
    // Sunday 2024-05-12 23:59:59 UTC
    assert_eq!(sales.promotions_expire, Some(1715558399));
    assert_eq!(sales.cached_promotions_at(1715558399).map(|p| p.len()), Some(1));
    assert!(sales.cached_promotions_at(1715558400).is_none());
    assert_eq!(sales.expire_promotions_at(1715558400), CacheAction::ReconcileCache);
    assert!(sales.promotions.is_empty());
    assert_eq!(sales.promotions_expire, None);
}

#[test]
fn kept_sublists_last_while_their_sale_does() {
    let mut sales = ProviderSales::new();
    assert_eq!(sales.keep_sublist(group("g", NOW + 100)), CacheAction::Nothing);
    assert_eq!(sales.sublist_at("g", NOW).map(|g| g.items.len()), Some(2));
    assert_eq!(sales.keep_sublist(group("g", NOW + 100)), CacheAction::ReconcileCache);
    assert_eq!(sales.expire_sublist_at("g", NOW + 100), CacheAction::Nothing);
    assert!(sales.sublist_at("g", NOW + 101).is_none());

    sales.index.insert_sale("g".to_string(), SaleInfo::new(0, NOW + 100, vec!["a".to_string()]));
    sales.index.rebuild_inverted();
    assert_eq!(sales.expire_sublist_at("g", NOW + 101), CacheAction::ReconcileCache);
    assert!(sales.sublist_at("g", NOW).is_none());
    assert!(sales.index.get_sublist_sale("g").is_none());
    assert!(!sales.index.is_part_of_sale("a"));
}
