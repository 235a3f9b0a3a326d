use std::sync::Arc;

use wgg::picnic::models::CalendarDate;
use wgg::providers::models::{UnavailableItem, WggDecorator};
use wgg::providers::picnic_products::parse_decorator;

use wgg::jumbo::models::{
    NutritionalData, NutritionalInformation, ProductNutrition, ProductNutritionalGuidelines,
};
use wgg::picnic::credentials::{credentials_with_token, token_update, Credentials};
use wgg::picnic::error::ApiError;
use wgg::picnic::models::{Decorator, SingleArticle};
use wgg::picnic::pages::{
    picnic_children_supported, Analytics, AnalyticsContext, AnalyticsData, ArticleTile, PageBody, PageChildren,
    PageHeader, PagePml, PagesRoot, PmlNode,
};
use wgg::providers::jumbo_bridge::parse_nutritional_info;
use wgg::providers::models::sale_types::{NumForPrice, NumPercentOff};
use wgg::providers::models::{NutritionalItem, SaleType, SubNutritionalItem, WggSaleItem};
use wgg::providers::picnic_promotions::{
    parse_list_article_item_at, parse_new_picnic_promotion_at, parse_new_picnic_promotions_at, parse_pml_markdown,
};

const NOW: i64 = 1715000000;

fn context(name: Option<&str>, deeplink: Option<&str>) -> AnalyticsContext {
    AnalyticsContext {
        data: AnalyticsData { name: name.map(|s| s.to_string()), deeplink: deeplink.map(|s| s.to_string()) },
    }
}

fn container(n: PmlNode) -> PmlNode {
    PmlNode::Container { child: Some(Box::new(n)) }
}

fn text(markdown: &str) -> PmlNode {
    container(PmlNode::RichText { markdown: markdown.to_string() })
}

fn list_article(group: &str, category: Option<&str>, title: &str, label: &str) -> PagePml {
    PagePml {
        analytics: Analytics {
            contexts: vec![
                context(None, None),
                context(None, Some(&format!("app://promotions?promo_group_id={group}"))),
                context(category, None),
            ],
        },
        component: Some(PmlNode::Touchable {
            accessibility_label: Some(label.to_string()),
            child: Some(Box::new(container(PmlNode::Stack {
                children: vec![
                    container(PmlNode::Image { source_id: "img1".to_string() }),
                    container(PmlNode::Stack {
                        children: vec![PmlNode::Stack {
                            children: vec![text(&format!("#(#333333){title}#")), text("#(#333333)Vers#")],
                        }],
                    }),
                ],
            }))),
        }),
    }
}

fn article(id: &str) -> SingleArticle {
    SingleArticle {
        id: id.to_string(),
        decorators: vec![Decorator::Promo { text: "1 + 1 gratis".to_string() }],
        name: "Banaan".to_string(),
        display_price: 100,
        price: None,
        image_id: "b".to_string(),
        max_count: 5,
        unit_quantity: "1 stuk".to_string(),
        unit_quantity_sub: None,
    }
}

fn tile(id: &str, category: Option<&str>) -> PageChildren {
    PageChildren::ArticleTile(ArticleTile {
        article: article(id),
        analytics: Analytics { contexts: vec![context(category, None)] },
    })
}

fn block(id: &str, children: Vec<PageChildren>) -> PageChildren {
    PageChildren::Block(PageBody { id: id.to_string(), children })
}

#[test]
fn pml_markdown_drops_styling() {
    assert_eq!(parse_pml_markdown("#(#333333)Komkommer#"), Some("Komkommer".to_string()));
    assert_eq!(parse_pml_markdown("Komkommer"), None);
}

#[test]
fn list_article_becomes_a_group() {
    let mut category = None;
    let item = parse_list_article_item_at(
        &mut category,
        list_article("abc", Some("Groente"), "Komkommer", "Komkommer 2 voor €1"),
        NOW,
    );
    assert_eq!(category, Some("Groente".to_string()));
    let WggSaleItem::Group(group) = item.unwrap() else { panic!("expected a group") };
    assert_eq!(group.id, "abc");
    assert_eq!(group.name, "Komkommer");
    assert_eq!(group.sale_description, Some("Vers".to_string()));
    assert_eq!(
        group.image_urls,
        vec!["https://storefront-prod.nl.picnicinternational.com/static/images/img1/small.png".to_string()]
    );
    assert_eq!(group.sale_info.label, " 2 voor €1");
    assert_eq!(group.sale_info.sale_type, Some(SaleType::NumForPrice(NumForPrice { required: 2, price: 100 })));
    assert_eq!(group.sale_info.sale_validity.valid_from, 1714953600);
    assert!(group.items.is_empty());
}

#[test]
fn list_article_without_group_link_is_skipped() {
    let mut article = list_article("abc", Some("Groente"), "Komkommer", "Komkommer 2 voor €1");
    article.analytics.contexts.truncate(1);
    let mut category = None;
    assert!(parse_list_article_item_at(&mut category, article, NOW).is_none());
    assert_eq!(category, None);
}

#[test]
fn promotions_page_gives_vertical_and_list_categories() {
    let vertical = block(
        "promo-groups-vertical-tiles-1",
        vec![block(
            "inner-1",
            vec![block(
                "single-promo-group-xyz",
                vec![
                    PageChildren::Other,
                    block("articles", vec![tile("s1", None), tile("s2", Some("Fruit")), PageChildren::Other]),
                ],
            )],
        )],
    );
    let list = block(
        "promo-group-list-element-section-1",
        vec![block(
            "section-content-1",
            vec![PageChildren::Pml(list_article("g1", None, "Kaas", "Kaas 50% korting"))],
        )],
    );
    let page = PagesRoot {
        header: PageHeader { title: "Acties".to_string() },
        body: PageBody { id: "root".to_string(), children: vec![vertical, block("other", vec![]), list] },
    };
    assert!(picnic_children_supported(&page.body.children));
    let categories = parse_new_picnic_promotions_at(page, NOW);
    assert_eq!(categories.len(), 2);
    assert_eq!(categories[0].id, Some("xyz".to_string()));
    assert_eq!(categories[0].name, "Fruit");
    assert_eq!(categories[0].items.len(), 2);
    assert!(categories[0].complete);
    assert_eq!(categories[1].id, None);
    assert_eq!(categories[1].name, "Misc List 1");
    assert_eq!(categories[1].items.len(), 1);
}

#[test]
fn promotion_page_gives_a_complete_group() {
    let page = PagesRoot {
        header: PageHeader { title: "Bananen".to_string() },
        body: PageBody {
            id: "root".to_string(),
            children: vec![block(
                "content",
                vec![block("vertical-selling-unit-tiles-1", vec![tile("s1", None), tile("s2", None)])],
            )],
        },
    };
    let group = parse_new_picnic_promotion_at("sub1".to_string(), page, NOW).unwrap();
    assert_eq!(group.id, "sub1");
    assert_eq!(group.name, "Bananen");
    assert_eq!(group.items.len(), 2);
    assert_eq!(group.sale_info.label, "1 + 1 gratis");
}

fn nutrition(names: &[&str]) -> NutritionalInformation {
    NutritionalInformation {
        product_title: "p".to_string(),
        nutritional_guidelines: ProductNutritionalGuidelines { entries: vec![] },
        nutritional_data: NutritionalData {
            entries: names
                .iter()
                .map(|n| ProductNutrition {
                    name: n.to_string(),
                    value_per100g: format!("{n} value"),
                    value_per_portion: String::new(),
                })
                .collect(),
            portion_size: None,
        },
    }
}

#[test]
fn nutrition_groups_list_every_entry_once() {
    assert_eq!(
        parse_nutritional_info(&nutrition(&["Vetten", "Waarvan verzadigd"])),
        vec![NutritionalItem {
            name: "Vetten".to_string(),
            value: "Vetten value".to_string(),
            sub_values: vec![SubNutritionalItem {
                name: "Waarvan verzadigd".to_string(),
                value: "Waarvan verzadigd value".to_string(),
            }],
        }]
    );
    let items = parse_nutritional_info(&nutrition(&["Energie", "Vetten", "Waarvan verzadigd", "Zout"]));
    let names: Vec<&str> = items.iter().map(|i| i.name.as_str()).collect();
    assert_eq!(names, vec!["Energie", "Vetten", "Zout"]);
    assert_eq!(items[1].sub_values.len(), 1);
}

#[test]
fn percent_off_stays_in_range() {
    assert_eq!(NumPercentOff::new(30).unwrap().get_percent_off(), 30);
    assert!(NumPercentOff::new(0).is_none());
    assert!(NumPercentOff::new(101).is_none());
}

#[test]
fn new_token_keeps_the_user() {
    let found = Some(Arc::new(Credentials::new("old".to_string(), "u".to_string())));
    let updated = credentials_with_token(found, "new".to_string()).unwrap();
    assert_eq!(*updated, Credentials::new("new".to_string(), "u".to_string()));
    assert!(credentials_with_token(None, "new".to_string()).is_none());
}

#[test]
fn decorator_validity_label_in_a_missing_week_changes_nothing() {
    let mut result: Vec<WggDecorator> = Vec::new();
    let mut price: u32 = 250;
    let mut unavailable: Option<UnavailableItem> = None;
    let label = Decorator::ValidityLabel { valid_until: CalendarDate { year: 2021, month: 1, day: 1 } };
    parse_decorator(label, &mut result, &mut price, &mut unavailable);
    assert!(result.is_empty());
    assert_eq!(price, 250);
    assert!(unavailable.is_none());
}

#[test]
fn token_update_keeps_the_read_error_or_the_new_token() {
    assert_eq!(token_update(Err(ApiError::AuthError), "t".to_string()), Err(ApiError::AuthError));
    assert_eq!(token_update(Ok(None), "t".to_string()), Ok(None));
    let found = Arc::new(Credentials { auth_token: "old".to_string(), user_id: "u".to_string() });
    let kept = token_update(Ok(Some(found)), "new".to_string()).unwrap().unwrap();
    assert_eq!(*kept, Credentials { auth_token: "new".to_string(), user_id: "u".to_string() });
}
