use wgg::jumbo::ids::{Id, ProductId, PromotionId};
use wgg::jumbo::models::{
    Availability, AvailabilityType, ImageInfo, PartialProduct, Price, Prices, ProductImage, ProductList,
    ProductPromotion, ProductType, ProductsPage, Promotion, PromotionImage, Tag,
};
use wgg::numbers::Decimal;
use wgg::picnic::models::{
    AllergyContain, Allergies, CalendarDate, Decorator, Description as PicnicDescription, Explanation,
    Highlight, Image, Labels, PriceInfo as PicnicPriceInfo, ProductArticle, PromoText, SingleArticle,
    UnavailableReason as PicnicUnavailableReason,
};
use wgg::providers::common_bridge::{get_guessed_sale_validity, parse_sale_label};
use wgg::providers::error::ProviderError;
use wgg::providers::jumbo_products::parse_jumbo_item_to_search_item;
use wgg::providers::jumbo_promotions::{parse_jumbo_promotion, parse_jumbo_promotion_complete};
use wgg::providers::models::sale_types::{NumForPrice, NumPlusNumFree, NumthPercentOff};
use wgg::providers::models::{
    AllergyTags, AllergyType, Description, FreshLabel, PrepTime, PriceInfo, ProductIdT, Provider,
    SaleInformation, SaleType, SaleValidity, TextType, UnavailableItem, UnavailableReason, Unit, UnitPrice,
    UnitQuantity, WggDecorator, WggProduct, WggSaleCategory, WggSaleGroupLimited, WggSaleItem,
    WggSearchProduct,
};
use wgg::providers::picnic_full_product::{
    parse_picnic_full_product_to_product, parse_picnic_full_product_to_product_at,
};
use wgg::providers::picnic_products::{
    label_validity, parse_decorators_for_sale, parse_picnic_item_to_search_item_at, validity_label_is_supported,
};
use wgg::sale_resolver::{
    get_sale_validity_at, marked_sale_sources, sale_sources, SaleIndex, SaleInfo, SaleSource,
};

const NOW: i64 = 1715000000; // Monday 2024-05-06 12:53:20 UTC

fn week_of_now() -> SaleValidity {
    SaleValidity { valid_from: 1714953600, valid_until: 1715558399 }
}

fn date(year: i32, month: u32, day: u32) -> CalendarDate {
    CalendarDate { year, month, day }
}

fn picnic_image(id: &str) -> String {
    format!("https://storefront-prod.nl.picnicinternational.com/static/images/{id}/medium.png")
}

// ** Jumbo **

fn available() -> Availability {
    Availability { sku: None, availability: AvailabilityType::Available, reason: None, label: None }
}

fn jumbo_article(id: &str, promotion: Option<ProductPromotion>) -> PartialProduct {
    PartialProduct {
        id: ProductId::from_id(id.to_string()),
        title: "Jumbo Halfvolle Melk".to_string(),
        quantity_options: vec![],
        prices: Prices {
            price: Price { currency: "EUR".to_string(), amount: 129 },
            promotional_price: Some(Price { currency: "EUR".to_string(), amount: 99 }),
            unit_price: None,
        },
        available: true,
        product_type: ProductType::Product,
        image_info: ImageInfo {
            primary_view: vec![ProductImage { url: "https://jumbo/melk.png".to_string(), width: 1, height: 1 }],
        },
        top_level_category: "Zuivel".to_string(),
        top_level_category_id: "z".to_string(),
        sample: false,
        availability: available(),
        quantity: Some("1 liter".to_string()),
        retail_set_products: None,
        sticker_badges: vec![],
        badge_description: Some("7+ dagen vers".to_string()),
        promotion,
    }
}

fn product_promotion(tags: &[&str]) -> ProductPromotion {
    ProductPromotion {
        id: "promo".to_string(),
        name: "Melk".to_string(),
        label: "".to_string(),
        image_url: "".to_string(),
        validity_period: "".to_string(),
        summary: "".to_string(),
        offline: false,
        tags: tags.iter().map(|t| Tag { text: t.to_string() }).collect(),
        from_date: 100,
        to_date: 200,
    }
}

#[test]
fn jumbo_item_is_normalised() {
    let item = parse_jumbo_item_to_search_item(jumbo_article(
        "67649PAK",
        Some(product_promotion(&["Online only", "2 voor € 2,75"])),
    ));
    let expected = WggSearchProduct {
        id: "67649PAK".to_string(),
        name: "Jumbo Halfvolle Melk".to_string(),
        price_info: PriceInfo {
            display_price: 99,
            original_price: 129,
            unit_price: Some(UnitPrice { unit: Unit::Liter, price: 99 }),
        },
        unit_quantity: UnitQuantity { unit: Unit::Liter, amount: Decimal::whole(1) },
        unavailable_details: None,
        image_url: Some("https://jumbo/melk.png".to_string()),
        decorators: vec![WggDecorator::FreshLabel(FreshLabel { days_fresh: 7 })],
        sale_information: Some(SaleInformation {
            label: "2 voor € 2,75".to_string(),
            additional_label: vec!["Online only".to_string()],
            sale_validity: SaleValidity { valid_from: 100, valid_until: 200 },
            sale_type: Some(SaleType::NumForPrice(NumForPrice { required: 2, price: 275 })),
        }),
        provider: Provider::Jumbo,
    };
    assert_eq!(item, expected);
}

#[test]
fn jumbo_unavailable_item_has_reason_and_no_sale() {
    let mut article = jumbo_article("1", None);
    article.availability = Availability {
        sku: None,
        availability: AvailabilityType::TemporarilyUnavailable,
        reason: Some("Levering vertraagd".to_string()),
        label: Some("Tijdelijk uitverkocht".to_string()),
    };
    article.quantity = Some("onbekend".to_string());
    article.badge_description = None;
    let item = parse_jumbo_item_to_search_item(article);
    assert_eq!(
        item.unavailable_details,
        Some(UnavailableItem {
            reason: UnavailableReason::TemporarilyUnavailable,
            explanation_short: Some("Tijdelijk uitverkocht".to_string()),
            explanation_long: Some("Levering vertraagd".to_string()),
            replacements: vec![],
        })
    );
    assert_eq!(item.unit_quantity, UnitQuantity::default());
    assert_eq!(item.price_info.unit_price, Some(UnitPrice { unit: Unit::Piece, price: 99 }));
    assert!(item.decorators.is_empty());
    assert_eq!(item.sale_information, None);
}

#[test]
fn jumbo_unparsable_tags_fall_back_to_a_plain_tag() {
    let item =
        parse_jumbo_item_to_search_item(jumbo_article("1", Some(product_promotion(&["Alleen online", "Ronde prijs"]))));
    let sale = item.sale_information.unwrap();
    assert_eq!(sale.label, "Ronde prijs");
    assert_eq!(sale.additional_label, vec!["Alleen online".to_string()]);
    assert_eq!(sale.sale_type, None);
}

fn jumbo_promotion(tags: &[&str]) -> Promotion {
    Promotion {
        id: PromotionId::from_id("p1".to_string()),
        title: "Alle melk".to_string(),
        description: "".to_string(),
        primary_badges: vec![],
        secondary_badges: vec![],
        tags: tags.iter().map(|t| t.to_string()).collect(),
        subtitle: Some("Halfvol en vol".to_string()),
        image: PromotionImage { url: "https://jumbo/promo.png".to_string(), relative_path: "".to_string() },
        start_date: 10,
        end_date: 20,
        products: vec![ProductId::from_id("a".to_string()), ProductId::from_id("b".to_string())],
        disclaimer: None,
        offline_text: None,
    }
}

fn one_plus_one(valid_from: i64, valid_until: i64) -> SaleInformation {
    SaleInformation {
        label: "1 + 1 gratis".to_string(),
        additional_label: vec![],
        sale_validity: SaleValidity { valid_from, valid_until },
        sale_type: Some(SaleType::NumPlusNumFree(NumPlusNumFree { required: 1, free: 1 })),
    }
}

#[test]
fn jumbo_promotion_becomes_a_limited_group() {
    let group = parse_jumbo_promotion(jumbo_promotion(&["1 + 1 gratis"])).unwrap();
    assert_eq!(
        group,
        WggSaleGroupLimited {
            id: "p1".to_string(),
            name: "Alle melk".to_string(),
            image_urls: vec!["https://jumbo/promo.png".to_string()],
            items: vec![ProductIdT { id: "a".to_string() }, ProductIdT { id: "b".to_string() }],
            sale_info: one_plus_one(10, 20),
            sale_description: Some("Halfvol en vol".to_string()),
            provider: Provider::Jumbo,
        }
    );
}

#[test]
fn jumbo_promotion_without_tags_is_no_sale() {
    assert_eq!(parse_jumbo_promotion(jumbo_promotion(&[])), None);
}

#[test]
fn jumbo_complete_promotion_gives_its_sale_to_each_product() {
    let list = ProductList {
        products: ProductsPage { data: vec![jumbo_article("a", None), jumbo_article("b", None)], total: 2, offset: 0 },
    };
    let group = parse_jumbo_promotion_complete(jumbo_promotion(&["1 + 1 gratis"]), list).unwrap();
    assert_eq!(group.id, "p1");
    assert_eq!(group.items.len(), 2);
    assert_eq!(group.items[0].id, "a");
    assert_eq!(group.items[1].id, "b");
    for item in &group.items {
        assert_eq!(item.sale_information, Some(one_plus_one(10, 20)));
    }
    assert_eq!(group.sale_info, one_plus_one(10, 20));
}

#[test]
fn jumbo_faux_sale_is_refused() {
    let list = ProductList { products: ProductsPage { data: vec![], total: 0, offset: 0 } };
    assert_eq!(
        parse_jumbo_promotion_complete(jumbo_promotion(&[]), list),
        Err(ProviderError::Other("Provided list is not a true sale (may be a faux-sale!)".to_string()))
    );
}

// ** Picnic sale decorators **

#[test]
fn validity_label_runs_from_monday_of_its_week() {
    assert_eq!(
        label_validity(date(2024, 5, 12)),
        Some(SaleValidity { valid_from: 1714953600, valid_until: 1715558399 })
    );
}

#[test]
fn validity_label_week_is_counted_in_the_calendar_year() {
    // 2024-12-30 is in ISO week 1 (of 2025); week 1 of 2024 starts on 2024-01-01.
    assert_eq!(
        label_validity(date(2024, 12, 30)),
        Some(SaleValidity { valid_from: 1704067200, valid_until: 1735603199 })
    );
}

#[test]
fn validity_label_that_is_no_date_gives_nothing() {
    assert_eq!(label_validity(date(2024, 2, 30)), None);
    assert!(validity_label_is_supported(date(2024, 2, 30)));
}

#[test]
fn validity_label_of_a_missing_week_is_unsupported() {
    // 2021-01-01 is in week 53 (of 2020), and 2021 has no week 53.
    assert!(!validity_label_is_supported(date(2021, 1, 1)));
    assert!(validity_label_is_supported(date(2024, 5, 12)));
}

#[test]
fn guessed_validity_is_the_week_of_now() {
    assert_eq!(get_guessed_sale_validity(NOW), week_of_now());
}

#[test]
fn sale_label_that_overflows_gives_none() {
    assert_eq!(parse_sale_label("99999999999 voor €1"), None);
}

#[test]
fn last_promo_and_validity_win() {
    let decorators = vec![
        Decorator::Promo { text: "1 + 1 gratis".to_string() },
        Decorator::ValidityLabel { valid_until: date(2024, 5, 12) },
        Decorator::Promo { text: "2e halve prijs".to_string() },
        Decorator::ValidityLabel { valid_until: date(2024, 2, 30) },
    ];
    assert_eq!(
        parse_decorators_for_sale(&decorators),
        (Some("2e halve prijs".to_string()), Some(SaleValidity { valid_from: 1714953600, valid_until: 1715558399 }))
    );
}

// ** Picnic search items **

fn picnic_article(id: &str, decorators: Vec<Decorator>, unit_quantity: &str, sub: Option<&str>) -> SingleArticle {
    SingleArticle {
        id: id.to_string(),
        decorators,
        name: "Bananen".to_string(),
        display_price: 200,
        price: None,
        image_id: "abc".to_string(),
        max_count: 50,
        unit_quantity: unit_quantity.to_string(),
        unit_quantity_sub: sub.map(|s| s.to_string()),
    }
}

#[test]
fn picnic_item_is_normalised() {
    let article = picnic_article(
        "s1",
        vec![
            Decorator::FreshLabel { period: "P5D".to_string() },
            Decorator::Promo { text: "2e halve prijs".to_string() },
            Decorator::Price { display_price: 150 },
            Decorator::FreshLabel { period: "P9D".to_string() },
        ],
        "500 gram",
        Some("€4.00/kg"),
    );
    let expected = WggSearchProduct {
        id: "s1".to_string(),
        name: "Bananen".to_string(),
        price_info: PriceInfo {
            display_price: 150,
            original_price: 200,
            unit_price: Some(UnitPrice { unit: Unit::KiloGram, price: 400 }),
        },
        unit_quantity: UnitQuantity { unit: Unit::Gram, amount: Decimal::whole(500) },
        unavailable_details: None,
        image_url: Some(picnic_image("abc")),
        decorators: vec![WggDecorator::FreshLabel(FreshLabel { days_fresh: 5 })],
        sale_information: Some(SaleInformation {
            label: "2e halve prijs".to_string(),
            additional_label: vec![],
            sale_validity: week_of_now(),
            sale_type: Some(SaleType::NumthPercentOff(NumthPercentOff { required: 2, last_percent_off: 50 })),
        }),
        provider: Provider::Picnic,
    };
    assert_eq!(parse_picnic_item_to_search_item_at(article, NOW), expected);
}

#[test]
fn picnic_recipe_discount_is_no_sale_and_prep_time_is_read() {
    let article = picnic_article(
        "r1",
        vec![
            Decorator::Promo { text: "Receptkorting".to_string() },
            Decorator::ValidityLabel { valid_until: date(2024, 5, 12) },
        ],
        "4-6 pers | 30 min",
        None,
    );
    let item = parse_picnic_item_to_search_item_at(article, NOW);
    assert_eq!(item.sale_information, None);
    assert_eq!(item.decorators, vec![WggDecorator::PrepTime(PrepTime { time_minutes: 30 })]);
    assert_eq!(item.unit_quantity, UnitQuantity::default());
    assert_eq!(item.price_info.unit_price, Some(UnitPrice { unit: Unit::Piece, price: 200 }));
}

#[test]
fn picnic_unavailable_item_lists_its_replacements() {
    let replacement = picnic_article("alt", vec![], "1 stuk", None);
    let article = picnic_article(
        "u1",
        vec![Decorator::Unavailable {
            reason: PicnicUnavailableReason::OutOfSeason,
            replacements: vec![replacement],
            explanation: Explanation {
                short_explanation: "Uit seizoen".to_string(),
                long_explanation: "Komt terug".to_string(),
            },
        }],
        "1 stuk",
        None,
    );
    let details = parse_picnic_item_to_search_item_at(article, NOW).unavailable_details.unwrap();
    assert_eq!(details.reason, UnavailableReason::OutOfSeason);
    assert_eq!(details.explanation_short, Some("Uit seizoen".to_string()));
    assert_eq!(details.explanation_long, Some("Komt terug".to_string()));
    assert_eq!(details.replacements.len(), 1);
    assert_eq!(details.replacements[0].id, "alt");
    assert_eq!(details.replacements[0].image_url, Some(picnic_image("abc")));
}

// ** Picnic full products **

fn picnic_product(decorators: Vec<Decorator>) -> ProductArticle {
    ProductArticle {
        id: "p1".to_string(),
        name: "Kaas".to_string(),
        decorators,
        description: Some(PicnicDescription { main: "Lekker ".to_string(), extension: Some("belegen".to_string()) }),
        price_info: PicnicPriceInfo {
            price: 250,
            price_color: None,
            original_price: Some(300),
            deposit: None,
            base_price_text: Some("€5.00/kg".to_string()),
        },
        labels: Labels { size: None, promo: Some(PromoText { text: "1 + 1 gratis".to_string() }) },
        images: vec![Image { image_id: "i1".to_string() }],
        max_order_quantity: 10,
        unit_quantity: "500 gram".to_string(),
        category_link: None,
        allergies: Allergies {
            allergy_contains: vec![AllergyContain { name: "Melk".to_string(), color: None }],
            allergy_may_contain: vec!["Noten".to_string()],
            allergy_text: None,
        },
        highlights: vec![
            Highlight { icon: "".to_string(), text: "Biologisch".to_string(), action: None },
            Highlight { icon: "".to_string(), text: "Minimaal 2 weken dagen vers".to_string(), action: None },
        ],
        mood_gallery: vec![],
        misc: vec![],
    }
}

#[test]
fn picnic_full_product_is_normalised() {
    let product = picnic_product(vec![
        Decorator::Price { display_price: 200 },
        Decorator::ValidityLabel { valid_until: date(2024, 5, 12) },
        Decorator::FreshLabel { period: "P7D".to_string() },
    ]);
    let expected = WggProduct {
        id: "p1".to_string(),
        name: "Kaas".to_string(),
        description: Description { text: "Lekker belegen".to_string(), text_type: TextType::Markdown },
        price_info: PriceInfo {
            display_price: 200,
            original_price: 300,
            unit_price: Some(UnitPrice { unit: Unit::KiloGram, price: 500 }),
        },
        unit_quantity: UnitQuantity { unit: Unit::Gram, amount: Decimal::whole(500) },
        unavailable_details: None,
        image_urls: vec![picnic_image("i1")],
        ingredients: vec![],
        nutritional: None,
        allergy_info: vec![
            AllergyTags { name: "Melk".to_string(), contains: AllergyType::Contains },
            AllergyTags { name: "Noten".to_string(), contains: AllergyType::MayContain },
        ],
        additional_items: vec![],
        decorators: vec![WggDecorator::FreshLabel(FreshLabel { days_fresh: 14 })],
        sale_information: Some(one_plus_one(1714953600, 1715558399)),
        provider: Provider::Picnic,
    };
    assert_eq!(parse_picnic_full_product_to_product_at(product, NOW), expected);
}

#[test]
fn picnic_full_product_without_validity_label_gets_the_guessed_week() {
    let product = picnic_product(vec![]);
    let parsed = parse_picnic_full_product_to_product_at(product, NOW);
    assert_eq!(parsed.sale_information, Some(one_plus_one(1714953600, 1715558399)));
    assert_eq!(parsed.price_info.display_price, 250);
}

#[test]
fn picnic_full_product_with_unreadable_label_is_an_error() {
    let product = picnic_product(vec![Decorator::ValidityLabel { valid_until: date(2021, 1, 1) }]);
    assert_eq!(
        parse_picnic_full_product_to_product(product),
        Err(ProviderError::Other(
            "Picnic product holds a validity label or freshness period that cannot be read".to_string()
        ))
    );
}

// ** Sale sources **

#[test]
fn sale_sources_request_sublists_and_keep_known_groups() {
    let known = WggSaleGroupLimited {
        id: "g1".to_string(),
        name: "Groep".to_string(),
        image_urls: vec![],
        items: vec![ProductIdT { id: "x".to_string() }],
        sale_info: one_plus_one(5, 6),
        sale_description: None,
        provider: Provider::Jumbo,
    };
    let empty = WggSaleGroupLimited { id: "g2".to_string(), items: vec![], ..known.clone() };
    let categories = vec![WggSaleCategory {
        id: Some("cat".to_string()),
        name: "Zuivel".to_string(),
        items: vec![WggSaleItem::Group(known), WggSaleItem::Group(empty)],
        image_urls: vec![],
        complete: false,
        provider: Provider::Jumbo,
    }];
    let sources = sale_sources(&categories);
    assert_eq!(sources.len(), 3);
    match &sources[0] {
        SaleSource::Fetch(id) => assert_eq!(id, "cat"),
        _ => panic!("expected the category to be requested"),
    }
    match &sources[1] {
        SaleSource::Known(id, info) => {
            assert_eq!(id, "g1");
            assert_eq!(info.valid_from(), 5);
            assert_eq!(info.valid_until(), 6);
            assert_eq!(info.item_ids(), &vec!["x".to_string()]);
        },
        _ => panic!("expected the group to be known"),
    }
    match &sources[2] {
        SaleSource::Fetch(id) => assert_eq!(id, "g2"),
        _ => panic!("expected the empty group to be requested"),
    }
}

#[test]
fn marked_sale_sources_keep_only_marked_categories() {
    let category = |id: &str| WggSaleCategory {
        id: Some(id.to_string()),
        name: id.to_string(),
        items: vec![],
        image_urls: vec![],
        complete: false,
        provider: Provider::Picnic,
    };
    let categories = vec![category("a"), category("b"), category("c")];
    let sources = marked_sale_sources(&categories, &vec![true, false, true]);
    let ids: Vec<String> = sources
        .iter()
        .map(|s| match s {
            SaleSource::Fetch(id) => id.clone(),
            SaleSource::Known(id, _) => id.clone(),
        })
        .collect();
    assert_eq!(ids, vec!["a".to_string(), "c".to_string()]);
    assert!(marked_sale_sources(&categories, &vec![false, false, false]).is_empty());
}

fn category_with_group(group_id: &str, products: &[&str]) -> WggSaleCategory {
    WggSaleCategory {
        id: None,
        name: group_id.to_string(),
        items: vec![WggSaleItem::Group(WggSaleGroupLimited {
            id: group_id.to_string(),
            name: group_id.to_string(),
            image_urls: vec![],
            items: products.iter().map(|p| ProductIdT { id: p.to_string() }).collect(),
            sale_info: one_plus_one(1, 2),
            sale_description: None,
            provider: Provider::Jumbo,
        })],
        image_urls: vec![],
        complete: true,
        provider: Provider::Jumbo,
    }
}

fn apply(index: &mut SaleIndex, sources: Vec<SaleSource>) {
    let fetched = sources
        .into_iter()
        .map(|s| match s {
            SaleSource::Known(id, info) => (id, info),
            SaleSource::Fetch(id) => (id, SaleInfo::new(0, 0, vec![])),
        })
        .collect();
    index.finish_refresh(fetched);
}

#[test]
fn refresh_of_an_empty_index_takes_every_category() {
    let mut index = SaleIndex::new();
    let fresh = vec![category_with_group("g1", &["x", "y"])];
    let sources = index.start_refresh(&vec![], &vec![], &fresh, &vec![false]).unwrap();
    assert_eq!(sources.len(), 1);
    apply(&mut index, sources);
    assert_eq!(index.get_sale_sublist_id("x"), Some("g1".to_string()));
    assert_eq!(index.get_sale_sublist_id("y"), Some("g1".to_string()));
    assert!(index.are_valid());
}

#[test]
fn refresh_drops_removed_and_adds_new_categories() {
    let mut index = SaleIndex::new();
    let first = vec![category_with_group("g1", &["x"])];
    let sources = index.start_refresh(&vec![], &vec![], &first, &vec![true]).unwrap();
    apply(&mut index, sources);

    // Nothing changed: nothing to do.
    assert!(index.start_refresh(&first, &vec![false], &first, &vec![false]).is_none());
    assert_eq!(index.get_sale_sublist_id("x"), Some("g1".to_string()));

    let second = vec![category_with_group("g2", &["z"])];
    let sources = index.start_refresh(&first, &vec![true], &second, &vec![true]).unwrap();
    apply(&mut index, sources);
    assert_eq!(index.get_sale_sublist_id("x"), None);
    assert_eq!(index.get_sale_sublist_id("z"), Some("g2".to_string()));
    assert!(index.get_sublist_sale("g1").is_none());
    assert_eq!(index.get_sublist_sale("g2").unwrap().item_ids(), &vec!["z".to_string()]);
}

#[test]
fn sale_validity_is_the_first_listed_or_the_guessed_week() {
    let decorators = vec![
        WggDecorator::FreshLabel(FreshLabel { days_fresh: 3 }),
        WggDecorator::SaleValidity(SaleValidity { valid_from: 1, valid_until: 2 }),
        WggDecorator::SaleValidity(SaleValidity { valid_from: 3, valid_until: 4 }),
    ];
    assert_eq!(get_sale_validity_at(&decorators, NOW), SaleValidity { valid_from: 1, valid_until: 2 });
    assert_eq!(get_sale_validity_at(&vec![], NOW), week_of_now());
}
