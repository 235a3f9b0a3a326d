use vstd::prelude::*;

use crate::jumbo::ids::Id;
use crate::jumbo::models::{
    Availability, AvailabilityType, ImageInfo, Ingredient, IngredientInfo as JumboIngredientInfo,
    OriginInfo, PartialProduct, Prices, Product, ProductImage, ProductPromotion, Tag,
    UnitPrice as JumboUnitPrice, UsageAndSafetyInfo,
};
use crate::numbers::{parse_u32, spec_parse_unsigned};
use crate::providers::common_bridge::{
    derive_unit_price, parse_quantity, parse_unit_component, quantity_view, spec_derive_unit_price,
    spec_parse_quantity, spec_parse_unit_component,
};
use crate::providers::jumbo_bridge::{
    allergies_of, allergy_pattern, nutrition_groups, nutritional_item_view, opt_sale_info_view,
    parse_allergy_info, parse_badge_description, parse_nutritional_info, parse_promotion_to_sale_info,
    spec_parse_badge_description, spec_sale_info, str_views,
};
use crate::providers::models::{
    AllergyTags, Description, FreshLabel, IngredientInfo, ItemInfo, ItemType, NumberOfServings,
    NutritionalInfo, NutritionalItem, PriceInfo, Provider, SaleInformation, SaleType, SaleValidity,
    TextType, UnavailableItem, UnavailableReason, Unit, UnitPrice, UnitQuantity, WggDecorator,
    WggProduct, WggSearchProduct,
};
use crate::patterns::regex_captures_all;
use crate::text::chars_of;

verus! {

// ** Shared parts of products and search items **

/// The unit quantity that an optional quantity text gives: one piece when there is none or it does not
/// read as a quantity.
pub open spec fn spec_quantity_or_default(q: Option<String>) -> (Unit, (nat, nat)) {
    match q {
        Some(s) => match spec_parse_quantity(s@) {
            Some(v) => v,
            None => quantity_view(UnitQuantity::spec_default()),
        },
        None => quantity_view(UnitQuantity::spec_default()),
    }
}

fn quantity_or_default(q: &Option<String>) -> (res: UnitQuantity)
    ensures
        quantity_view(res) == spec_quantity_or_default(*q),
{
    match q {
        Some(s) => match parse_quantity(s.as_str()) {
            Some(v) => v,
            None => UnitQuantity::default(),
        },
        None => UnitQuantity::default(),
    }
}

/// The price shown: the promotional price when there is one, else the regular price.
pub open spec fn spec_display_price(prices: Prices) -> u32 {
    match prices.promotional_price {
        Some(p) => p.amount,
        None => prices.price.amount,
    }
}

/// The view of an optional unit price.
pub open spec fn unit_price_view(p: Option<UnitPrice>) -> Option<(Unit, nat)> {
    match p {
        Some(u) => Some((u.unit, u.price as nat)),
        None => None,
    }
}

/// The unit price of a Jumbo article: the listed one when its unit reads (none when it does not), else
/// the one derived from the quantity and the display price.
pub open spec fn spec_jumbo_unit_price(up: Option<JumboUnitPrice>, q: (Unit, (nat, nat)), display: nat) -> Option<
    (Unit, nat),
> {
    match up {
        Some(u) => match spec_parse_unit_component(u.unit@) {
            Some(unit) => Some((unit, u.price.amount as nat)),
            None => None,
        },
        None => Some(spec_derive_unit_price(q, display)),
    }
}

fn jumbo_unit_price(up: &Option<JumboUnitPrice>, q: &UnitQuantity, display: u32) -> (res: Option<UnitPrice>)
    ensures
        unit_price_view(res) == spec_jumbo_unit_price(*up, quantity_view(*q), display as nat),
{
    match up {
        Some(u) => match parse_unit_component(u.unit.as_str()) {
            Some(unit) => Some(UnitPrice { unit, price: u.price.amount }),
            None => None,
        },
        None => derive_unit_price(q, display),
    }
}

/// Why a Jumbo article is unavailable.
pub open spec fn spec_unavailable_reason(a: AvailabilityType) -> UnavailableReason {
    match a {
        AvailabilityType::TemporarilyUnavailable => UnavailableReason::TemporarilyUnavailable,
        AvailabilityType::Unavailable => UnavailableReason::OutOfAssortment,
        _ => UnavailableReason::Unknown,
    }
}

/// Whether `u` holds the unavailability that an availability gives: none when available, else the
/// reason with the label and the reason text as explanations, without replacements.
pub open spec fn unavailable_of(u: Option<UnavailableItem>, av: Availability) -> bool {
    if av.availability == AvailabilityType::Available {
        u is None
    } else {
        &&& u is Some
        &&& u.unwrap().reason == spec_unavailable_reason(av.availability)
        &&& u.unwrap().explanation_short == av.label
        &&& u.unwrap().explanation_long == av.reason
        &&& u.unwrap().replacements@.len() == 0
    }
}

/// What a Jumbo availability says of an article: an available one has no unavailability; one that is
/// no longer sold (`Unavailable`) is out of assortment, one that is temporarily unavailable is
/// temporarily unavailable, and no other availability is reported as either.
pub proof fn lemma_jumbo_unavailability(u: Option<UnavailableItem>, av: Availability)
    requires
        unavailable_of(u, av),
    ensures
        u is None <==> av.availability == AvailabilityType::Available,
        av.availability == AvailabilityType::Unavailable ==> (u matches Some(item) && item.reason
            == UnavailableReason::OutOfAssortment),
        av.availability == AvailabilityType::TemporarilyUnavailable ==> (u matches Some(item) && item.reason
            == UnavailableReason::TemporarilyUnavailable),
        u matches Some(item) && item.reason == UnavailableReason::OutOfAssortment ==> av.availability
            == AvailabilityType::Unavailable,
        u matches Some(item) && item.reason == UnavailableReason::TemporarilyUnavailable ==> av.availability
            == AvailabilityType::TemporarilyUnavailable,
{
}

fn jumbo_unavailable(av: Availability) -> (res: Option<UnavailableItem>)
    ensures
        unavailable_of(res, av),
{
    if av.availability != AvailabilityType::Available {
        let reason = match av.availability {
            AvailabilityType::TemporarilyUnavailable => UnavailableReason::TemporarilyUnavailable,
            AvailabilityType::Unavailable => UnavailableReason::OutOfAssortment,
            _ => UnavailableReason::Unknown,
        };
        Some(
            UnavailableItem {
                reason,
                explanation_short: av.label,
                explanation_long: av.reason,
                replacements: Vec::new(),
            },
        )
    } else {
        None
    }
}

/// The decorators of a badge: its fresh label when it holds one.
pub open spec fn spec_badge_decorators(b: Option<String>) -> Seq<WggDecorator> {
    match b {
        Some(s) => match spec_parse_badge_description(s@) {
            Some(d) => seq![WggDecorator::FreshLabel(FreshLabel { days_fresh: d as u32 })],
            None => seq![],
        },
        None => seq![],
    }
}

fn badge_decorators(b: &Option<String>) -> (res: Vec<WggDecorator>)
    ensures
        res@ == spec_badge_decorators(*b),
{
    let mut res: Vec<WggDecorator> = Vec::new();
    match b {
        Some(s) => match parse_badge_description(s.as_str()) {
            Some(fresh) => {
                res.push(WggDecorator::FreshLabel(fresh));
                proof {
                    assert(res@ =~= spec_badge_decorators(*b));
                }
            },
            None => {
                proof {
                    assert(res@ =~= spec_badge_decorators(*b));
                }
            },
        },
        None => {
            proof {
                assert(res@ =~= spec_badge_decorators(*b));
            }
        },
    }
    res
}

/// The texts of promotion tags.
pub open spec fn tag_views(tags: Seq<Tag>) -> Seq<Seq<char>> {
    tags.map_values(|t: Tag| t.text@)
}

fn tag_texts(tags: &Vec<Tag>) -> (res: Vec<String>)
    ensures
        str_views(res@) == tag_views(tags@),
{
    let mut res: Vec<String> = Vec::new();
    let mut i: usize = 0;
    while i < tags.len()
        invariant
            i <= tags.len(),
            str_views(res@) == tag_views(tags@).take(i as int),
        decreases tags.len() - i,
    {
        let t = tags[i].text.clone();
        let ghost prev = res@;
        res.push(t);
        proof {
            assert(res@ == prev.push(t));
            assert(tag_views(tags@).take(i + 1) =~= tag_views(tags@).take(i as int).push(tags@[i as int].text@));
            assert(str_views(res@) =~= str_views(prev).push(t@));
        }
        i = i + 1;
    }
    proof {
        assert(tag_views(tags@).take(tags.len() as int) =~= tag_views(tags@));
    }
    res
}

/// The sale information of a product's promotion: what its tags give over its validity period.
pub open spec fn spec_promotion_sale_info(p: Option<ProductPromotion>) -> Option<
    (Seq<char>, Seq<Seq<char>>, SaleValidity, Option<SaleType>),
> {
    match p {
        Some(p) => spec_sale_info(
            tag_views(p.tags@),
            SaleValidity { valid_from: p.from_date, valid_until: p.to_date },
        ),
        None => None,
    }
}

fn promotion_sale_info(p: &Option<ProductPromotion>) -> (res: Option<SaleInformation>)
    ensures
        opt_sale_info_view(res) == spec_promotion_sale_info(*p),
{
    match p {
        Some(promotion) => {
            let tags = tag_texts(&promotion.tags);
            parse_promotion_to_sale_info(
                &tags,
                SaleValidity { valid_from: promotion.from_date, valid_until: promotion.to_date },
            )
        },
        None => None,
    }
}

/// The url of the first image, if any.
pub open spec fn spec_first_image(info: ImageInfo) -> Option<String> {
    if info.primary_view@.len() > 0 {
        Some(info.primary_view@[0].url)
    } else {
        None
    }
}

fn first_image_url(info: &ImageInfo) -> (res: Option<String>)
    ensures
        res == spec_first_image(*info),
{
    if info.primary_view.len() > 0 {
        Some(info.primary_view[0].url.clone())
    } else {
        None
    }
}

// ** Search items **

/// Whether `res` holds what a Jumbo [PartialProduct] says of itself, its sale information aside.
pub open spec fn jumbo_search_item_of(res: WggSearchProduct, article: PartialProduct) -> bool {
    &&& res.id@ == article.id.spec_id()
    &&& res.name == article.title
    &&& quantity_view(res.unit_quantity) == spec_quantity_or_default(article.quantity)
    &&& res.image_url == spec_first_image(article.image_info)
    &&& res.price_info.original_price == article.prices.price.amount
    &&& res.price_info.display_price == spec_display_price(article.prices)
    &&& unit_price_view(res.price_info.unit_price) == spec_jumbo_unit_price(
        article.prices.unit_price,
        spec_quantity_or_default(article.quantity),
        spec_display_price(article.prices) as nat,
    )
    &&& unavailable_of(res.unavailable_details, article.availability)
    &&& res.decorators@ == spec_badge_decorators(article.badge_description)
    &&& res.provider == Provider::Jumbo
}

/// Parse a Jumbo [PartialProduct] to our normalised [WggSearchProduct].
pub fn parse_jumbo_item_to_search_item(article: PartialProduct) -> (res: WggSearchProduct)
    ensures
        jumbo_search_item_of(res, article),
        opt_sale_info_view(res.sale_information) == spec_promotion_sale_info(article.promotion),
{
    let unit_quantity = quantity_or_default(&article.quantity);
    let image_url = first_image_url(&article.image_info);
    let original_price = article.prices.price.amount;
    let display_price = match &article.prices.promotional_price {
        Some(p) => p.amount,
        None => article.prices.price.amount,
    };
    let unit_price = jumbo_unit_price(&article.prices.unit_price, &unit_quantity, display_price);
    let sale_information = promotion_sale_info(&article.promotion);
    let decorators = badge_decorators(&article.badge_description);
    let unavailable_details = jumbo_unavailable(article.availability);
    WggSearchProduct {
        id: article.id.into_string(),
        name: article.title,
        price_info: PriceInfo { display_price, original_price, unit_price },
        unit_quantity,
        unavailable_details,
        image_url,
        decorators,
        sale_information,
        provider: Provider::Jumbo,
    }
}


// ** Full products **

/// The text of an optional string, empty when there is none.
pub open spec fn text_or_empty(s: Option<String>) -> Seq<char> {
    match s {
        Some(t) => t@,
        None => seq![],
    }
}

/// The description of a Jumbo product: the regulated title and, on the next line, the details; or the
/// details alone when there is no title.
pub open spec fn spec_jumbo_description(title: Option<String>, details: Option<String>) -> Seq<char> {
    match title {
        Some(t) => t@ + "\n"@ + text_or_empty(details),
        None => text_or_empty(details),
    }
}

/// A regulated title comes first in a description, on a line of its own, and the details follow it
/// unchanged: the description with a title is the title, a newline, then the description without it.
pub proof fn lemma_jumbo_description(title: String, details: Option<String>)
    ensures
        ({
            let with = spec_jumbo_description(Some(title), details);
            let without = spec_jumbo_description(None, details);
            &&& with.len() == title@.len() + 1 + without.len()
            &&& with.subrange(0, title@.len() as int) == title@
            &&& with[title@.len() as int] == '\n'
            &&& with.skip(title@.len() as int + 1) == without
            &&& without == (match details {
                Some(d) => d@,
                None => seq![],
            })
        }),
{
    reveal_strlit("\n");
    let with = spec_jumbo_description(Some(title), details);
    let without = spec_jumbo_description(None, details);
    assert(with.subrange(0, title@.len() as int) =~= title@);
    assert(with.skip(title@.len() as int + 1) =~= without);
}

fn jumbo_description(title: Option<String>, details: Option<String>) -> (res: String)
    ensures
        res@ == spec_jumbo_description(title, details),
{
    match title {
        Some(t) => {
            let mut text = t;
            text.append("\n");
            match details {
                Some(d) => text.append(d.as_str()),
                None => {},
            }
            proof {
                assert(text@ =~= spec_jumbo_description(title, details));
            }
            text
        },
        None => match details {
            Some(d) => d,
            None => String::new(),
        },
    }
}

/// The urls of the images.
pub open spec fn image_urls_of(info: ImageInfo) -> Seq<String> {
    info.primary_view@.map_values(|i: ProductImage| i.url)
}

fn image_urls(info: &ImageInfo) -> (res: Vec<String>)
    ensures
        res@ == image_urls_of(*info),
{
    let mut res: Vec<String> = Vec::new();
    let mut i: usize = 0;
    while i < info.primary_view.len()
        invariant
            i <= info.primary_view.len(),
            res@ == image_urls_of(*info).take(i as int),
        decreases info.primary_view.len() - i,
    {
        res.push(info.primary_view[i].url.clone());
        proof {
            assert(res@ =~= image_urls_of(*info).take(i + 1));
        }
        i = i + 1;
    }
    proof {
        assert(image_urls_of(*info).take(info.primary_view.len() as int) =~= image_urls_of(*info));
    }
    res
}

/// The ingredient names of a product: those of its last ingredient list.
pub open spec fn spec_ingredient_names(infos: Seq<JumboIngredientInfo>) -> Seq<String> {
    if infos.len() > 0 {
        infos.last().ingredients@.map_values(|i: Ingredient| i.name)
    } else {
        seq![]
    }
}

fn ingredients_of(infos: &Vec<JumboIngredientInfo>) -> (res: Vec<IngredientInfo>)
    ensures
        res@.map_values(|i: IngredientInfo| i.name) == spec_ingredient_names(infos@),
{
    let mut res: Vec<IngredientInfo> = Vec::new();
    if infos.len() == 0 {
        proof {
            assert(res@.map_values(|i: IngredientInfo| i.name) =~= spec_ingredient_names(infos@));
        }
        return res;
    }
    let last = &infos[infos.len() - 1];
    let ghost names = last.ingredients@.map_values(|i: Ingredient| i.name);
    let mut i: usize = 0;
    while i < last.ingredients.len()
        invariant
            i <= last.ingredients.len(),
            names == last.ingredients@.map_values(|i: Ingredient| i.name),
            res@.map_values(|i: IngredientInfo| i.name) == names.take(i as int),
        decreases last.ingredients.len() - i,
    {
        let name = last.ingredients[i].name.clone();
        let ghost prev = res@;
        res.push(IngredientInfo { name });
        proof {
            assert(res@ == prev.push(IngredientInfo { name }));
            assert(names.take(i + 1) =~= names.take(i as int).push(last.ingredients@[i as int].name));
            assert(res@.map_values(|i: IngredientInfo| i.name) =~= prev.map_values(|i: IngredientInfo| i.name).push(name));
        }
        i = i + 1;
    }
    proof {
        assert(names.take(last.ingredients.len() as int) =~= names);
        assert(infos@.last() == *last);
    }
    res
}

/// Whether `n` is the nutrition of a product: the grouped entries of its first nutrition table, per
/// 100g; none without a table.
pub open spec fn nutrition_of(n: Option<NutritionalInfo>, infos: Seq<crate::jumbo::models::NutritionalInformation>) -> bool {
    if infos.len() > 0 {
        &&& n is Some
        &&& n.unwrap().info_unit@ == "per 100g"@
        &&& n.unwrap().items@.map_values(|it: NutritionalItem| nutritional_item_view(it)) == nutrition_groups(
            infos[0].nutritional_data.entries@,
            0,
        )
    } else {
        n is None
    }
}

fn jumbo_nutrition(infos: &Vec<crate::jumbo::models::NutritionalInformation>) -> (res: Option<NutritionalInfo>)
    ensures
        nutrition_of(res, infos@),
{
    if infos.len() > 0 {
        let items = parse_nutritional_info(&infos[0]);
        let info_unit = String::from_str("per 100g");
        Some(NutritionalInfo { info_unit, items })
    } else {
        None
    }
}

/// Whether `tags` are the allergies of an allergy text: the tags of its `Bevat X` and `Bevatten X`
/// phrases; none without a text.
pub open spec fn allergies_of_text(tags: Seq<AllergyTags>, text: Option<String>) -> bool {
    match text {
        Some(t) => tags.map_values(|a: AllergyTags| (a.name@, a.contains)) == allergies_of(
            regex_captures_all(allergy_pattern(), t@),
        ),
        None => tags.len() == 0,
    }
}

fn jumbo_allergies(text: &Option<String>) -> (res: Vec<AllergyTags>)
    ensures
        allergies_of_text(res@, *text),
{
    match text {
        Some(t) => parse_allergy_info(t.as_str()),
        None => Vec::new(),
    }
}

/// The servings decorator of a product: the number of servings when it reads as a `u32`.
pub open spec fn spec_servings_decorators(s: Option<String>) -> Seq<WggDecorator> {
    match s {
        Some(t) => match spec_parse_unsigned(t@, u32::MAX as nat) {
            Some(n) => seq![WggDecorator::NumberOfServings(NumberOfServings { amount: n as u32 })],
            None => seq![],
        },
        None => seq![],
    }
}

fn servings_decorators(s: &Option<String>) -> (res: Vec<WggDecorator>)
    ensures
        res@ == spec_servings_decorators(*s),
{
    let mut res: Vec<WggDecorator> = Vec::new();
    match s {
        Some(t) => {
            let v = chars_of(t.as_str());
            match parse_u32(&v) {
                Some(amount) => res.push(WggDecorator::NumberOfServings(NumberOfServings { amount })),
                None => {},
            }
        },
        None => {},
    }
    proof {
        assert(res@ =~= spec_servings_decorators(*s));
    }
    res
}

/// A plain-text item of the given type for an optional text.
pub open spec fn plain_item(t: ItemType, s: Option<String>) -> Seq<ItemInfo> {
    match s {
        Some(x) => seq![ItemInfo { item_type: t, text: x, text_type: TextType::PlainText }],
        None => seq![],
    }
}

/// The additional items of a Jumbo product: preparation, storage and safety advice, then the country of
/// origin (or else the fishing area), all as plain text.
pub open spec fn spec_jumbo_additional(u: Option<UsageAndSafetyInfo>, o: Option<OriginInfo>) -> Seq<ItemInfo> {
    let usage = match u {
        Some(u) => plain_item(ItemType::PreparationAdvice, u.preparation_and_usage) + plain_item(
            ItemType::StorageAdvice,
            u.storage_type,
        ) + plain_item(ItemType::SafetyWarning, u.safety_warning),
        None => seq![],
    };
    let origin = match o {
        Some(o) => match o.country_of_origin {
            Some(c) => plain_item(ItemType::CountryOfOrigin, Some(c)),
            None => plain_item(ItemType::CountryOfOrigin, o.fishing_area),
        },
        None => seq![],
    };
    usage + origin
}

fn push_plain_item(items: &mut Vec<ItemInfo>, t: ItemType, s: Option<String>)
    ensures
        final(items)@ == old(items)@ + plain_item(t, s),
{
    match s {
        Some(text) => {
            let ghost x = text;
            items.push(ItemInfo { item_type: t, text, text_type: TextType::PlainText });
            proof {
                assert(final(items)@ =~= old(items)@ + plain_item(t, Some(x)));
            }
        },
        None => {
            proof {
                assert(items@ =~= old(items)@ + plain_item(t, s));
            }
        },
    }
}

fn jumbo_additional(u: Option<UsageAndSafetyInfo>, o: Option<OriginInfo>) -> (res: Vec<ItemInfo>)
    ensures
        res@ == spec_jumbo_additional(u, o),
{
    let mut items: Vec<ItemInfo> = Vec::new();
    match u {
        Some(usage) => {
            push_plain_item(&mut items, ItemType::PreparationAdvice, usage.preparation_and_usage);
            push_plain_item(&mut items, ItemType::StorageAdvice, usage.storage_type);
            push_plain_item(&mut items, ItemType::SafetyWarning, usage.safety_warning);
        },
        None => {},
    }
    let ghost usage_items = items@;
    match o {
        Some(origin) => match origin.country_of_origin {
            Some(c) => push_plain_item(&mut items, ItemType::CountryOfOrigin, Some(c)),
            None => push_plain_item(&mut items, ItemType::CountryOfOrigin, origin.fishing_area),
        },
        None => {},
    }
    proof {
        assert(items@ =~= spec_jumbo_additional(u, o));
    }
    items
}

/// Parse a full Jumbo [Product] to our normalised [WggProduct].
pub fn parse_jumbo_product_to_crate_product(product: Product) -> (res: WggProduct)
    ensures
        res.id@ == product.id.spec_id(),
        res.name == product.title,
        res.description.text@ == spec_jumbo_description(product.regulated_title, product.details_text),
        res.description.text_type == TextType::PlainText,
        res.price_info.display_price == spec_display_price(product.prices),
        res.price_info.original_price == product.prices.price.amount,
        quantity_view(res.unit_quantity) == spec_quantity_or_default(product.quantity),
        unit_price_view(res.price_info.unit_price) == spec_jumbo_unit_price(
            product.prices.unit_price,
            spec_quantity_or_default(product.quantity),
            spec_display_price(product.prices) as nat,
        ),
        res.image_urls@ == image_urls_of(product.image_info),
        opt_sale_info_view(res.sale_information) == spec_promotion_sale_info(product.promotion),
        unavailable_of(res.unavailable_details, product.availability),
        res.decorators@ == spec_badge_decorators(product.badge_description) + spec_servings_decorators(
            product.number_of_servings,
        ),
        res.ingredients@.map_values(|i: IngredientInfo| i.name) == spec_ingredient_names(product.ingredient_info@),
        nutrition_of(res.nutritional, product.nutritional_information@),
        allergies_of_text(res.allergy_info@, product.allergy_text),
        res.additional_items@ == spec_jumbo_additional(product.usage_and_safety_info, product.origin_info),
        res.provider == Provider::Jumbo,
{
    let unit_quantity = quantity_or_default(&product.quantity);
    let original_price = product.prices.price.amount;
    let display_price = match &product.prices.promotional_price {
        Some(p) => p.amount,
        None => product.prices.price.amount,
    };
    let unit_price = jumbo_unit_price(&product.prices.unit_price, &unit_quantity, display_price);
    let image_urls = image_urls(&product.image_info);
    let sale_information = promotion_sale_info(&product.promotion);
    let unavailable_details = jumbo_unavailable(product.availability);
    let mut decorators = badge_decorators(&product.badge_description);
    let mut servings = servings_decorators(&product.number_of_servings);
    decorators.append(&mut servings);
    let ingredients = ingredients_of(&product.ingredient_info);
    let nutritional = jumbo_nutrition(&product.nutritional_information);
    let allergy_info = jumbo_allergies(&product.allergy_text);
    let additional_items = jumbo_additional(product.usage_and_safety_info, product.origin_info);
    let text = jumbo_description(product.regulated_title, product.details_text);
    WggProduct {
        id: product.id.into_string(),
        name: product.title,
        description: Description { text, text_type: TextType::PlainText },
        price_info: PriceInfo { display_price, original_price, unit_price },
        unit_quantity,
        unavailable_details,
        image_urls,
        ingredients,
        nutritional,
        allergy_info,
        additional_items,
        decorators,
        sale_information,
        provider: Provider::Jumbo,
    }
}

} // verus!
