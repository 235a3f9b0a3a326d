use vstd::prelude::*;

use crate::numbers::{parse_u32, spec_parse_unsigned};
use crate::patterns::{captures_all, captures_view, regex_captures_all};
use crate::picnic::images::{image_url, spec_image_url};
use crate::picnic::models::{
    AllergyContain, Allergies, Body, Decorator, Description as PicnicDescription, Highlight, Image,
    ImageSize, Misc, NutritionalSubValue, NutritionalTable, NutritionalValue, PmlChildren, PmlComponent,
    ProductArticle, PromoText,
};
use crate::providers::common_bridge::{
    cap, derive_unit_price, get_guessed_sale_validity, max_timestamp, min_timestamp, parse_quantity,
    parse_sale_label, quantity_view, spec_parse_sale_label,
};
use crate::providers::error::ProviderError;
use crate::providers::jumbo_bridge::{first_match, opt_sale_info_view};
use crate::providers::jumbo_products::{text_or_empty, unit_price_view};
use crate::providers::models::{
    AllergyTags, AllergyType, Description, FreshLabel, IngredientInfo, ItemInfo, ItemType,
    NutritionalInfo, NutritionalItem, PrepTime, PriceInfo, Provider, SaleInformation, SaleType,
    SaleValidity, SubNutritionalItem, TextType, UnavailableItem, UnitQuantity, WggDecorator, WggProduct,
};
use crate::providers::picnic_bridge::{
    parse_picnic_ingredient_blob, parse_prep_time, parse_unit_price, spec_parse_ingredient_blob,
};
use crate::providers::picnic_products::{
    decorator_supported, decorators_supported, fresh_decorators, guessed_validity, last_price,
    lemma_decorators_supported, parse_decorator_at, parse_decorators_for_sale,
    picnic_article_supported, picnic_decorators_supported, sale_decorators, spec_picnic_quantity, spec_picnic_unit_price,
    spec_prep_decorators, unavailable_of_decorators, validity_label_is_supported,
};
use crate::text::{chars_of, contains_seq, eq_lit, spec_contains_seq};
use crate::dates::now_timestamp;

verus! {

// ** Description, images and allergies **

/// The description of a Picnic product: its main text followed by its extension; empty without one.
pub open spec fn spec_picnic_description(d: Option<PicnicDescription>) -> Seq<char> {
    match d {
        Some(desc) => desc.main@ + text_or_empty(desc.extension),
        None => seq![],
    }
}

fn picnic_description(d: Option<PicnicDescription>) -> (res: String)
    ensures
        res@ == spec_picnic_description(d),
{
    match d {
        Some(desc) => {
            let mut text = desc.main;
            match desc.extension {
                Some(extra) => text.append(extra.as_str()),
                None => {},
            }
            proof {
                assert(text@ =~= spec_picnic_description(d));
            }
            text
        },
        None => String::new(),
    }
}

/// The medium-size image urls of images.
pub open spec fn spec_picnic_image_urls(images: Seq<Image>) -> Seq<Seq<char>> {
    images.map_values(|i: Image| spec_image_url(i.image_id@, ImageSize::Medium))
}

fn picnic_image_urls(images: &Vec<Image>) -> (res: Vec<String>)
    ensures
        res@.map_values(|s: String| s@) == spec_picnic_image_urls(images@),
{
    let mut res: Vec<String> = Vec::new();
    let mut i: usize = 0;
    while i < images.len()
        invariant
            i <= images.len(),
            res@.map_values(|s: String| s@) == spec_picnic_image_urls(images@).take(i as int),
        decreases images.len() - i,
    {
        let url = image_url(images[i].image_id.as_str(), ImageSize::Medium);
        let ghost prev = res@;
        res.push(url);
        proof {
            assert(spec_picnic_image_urls(images@).take(i + 1) =~= spec_picnic_image_urls(images@).take(
                i as int,
            ).push(url@));
            assert(res@.map_values(|s: String| s@) =~= prev.map_values(|s: String| s@).push(url@));
        }
        i = i + 1;
    }
    proof {
        assert(spec_picnic_image_urls(images@).take(images.len() as int) =~= spec_picnic_image_urls(images@));
    }
    res
}

/// The allergy tags of a Picnic product: what it contains, then what it may contain.
pub open spec fn spec_picnic_allergies(a: Allergies) -> Seq<(Seq<char>, AllergyType)> {
    a.allergy_contains@.map_values(|c: AllergyContain| (c.name@, AllergyType::Contains))
        + a.allergy_may_contain@.map_values(|s: String| (s@, AllergyType::MayContain))
}

fn picnic_allergies(a: &Allergies) -> (res: Vec<AllergyTags>)
    ensures
        res@.map_values(|t: AllergyTags| (t.name@, t.contains)) == spec_picnic_allergies(*a),
{
    let ghost contains = a.allergy_contains@.map_values(|c: AllergyContain| (c.name@, AllergyType::Contains));
    let ghost may = a.allergy_may_contain@.map_values(|s: String| (s@, AllergyType::MayContain));
    let mut res: Vec<AllergyTags> = Vec::new();
    let mut i: usize = 0;
    while i < a.allergy_contains.len()
        invariant
            i <= a.allergy_contains.len(),
            contains == a.allergy_contains@.map_values(|c: AllergyContain| (c.name@, AllergyType::Contains)),
            res@.map_values(|t: AllergyTags| (t.name@, t.contains)) == contains.take(i as int),
        decreases a.allergy_contains.len() - i,
    {
        let tag = AllergyTags { name: a.allergy_contains[i].name.clone(), contains: AllergyType::Contains };
        let ghost prev = res@;
        res.push(tag);
        proof {
            assert(contains.take(i + 1) =~= contains.take(i as int).push((tag.name@, tag.contains)));
            assert(res@.map_values(|t: AllergyTags| (t.name@, t.contains)) =~= prev.map_values(
                |t: AllergyTags| (t.name@, t.contains),
            ).push((tag.name@, tag.contains)));
        }
        i = i + 1;
    }
    proof {
        assert(contains.take(a.allergy_contains.len() as int) =~= contains);
    }
    let mut j: usize = 0;
    while j < a.allergy_may_contain.len()
        invariant
            j <= a.allergy_may_contain.len(),
            contains == a.allergy_contains@.map_values(|c: AllergyContain| (c.name@, AllergyType::Contains)),
            may == a.allergy_may_contain@.map_values(|s: String| (s@, AllergyType::MayContain)),
            res@.map_values(|t: AllergyTags| (t.name@, t.contains)) == contains + may.take(j as int),
        decreases a.allergy_may_contain.len() - j,
    {
        let tag = AllergyTags { name: a.allergy_may_contain[j].clone(), contains: AllergyType::MayContain };
        let ghost prev = res@;
        res.push(tag);
        proof {
            assert(may.take(j + 1) =~= may.take(j as int).push((tag.name@, tag.contains)));
            assert(res@.map_values(|t: AllergyTags| (t.name@, t.contains)) =~= prev.map_values(
                |t: AllergyTags| (t.name@, t.contains),
            ).push((tag.name@, tag.contains)));
        }
        j = j + 1;
    }
    proof {
        assert(may.take(a.allergy_may_contain.len() as int) =~= may);
    }
    res
}

// ** Misc blocks: ingredients, nutrition and additional items **

/// The index of the first misc block whose header holds `key`.
pub open spec fn misc_index(ms: Seq<Misc>, key: Seq<char>) -> Option<nat> {
    first_match(ms.map_values(|m: Misc| m.header.text@), |t: Seq<char>| spec_contains_seq(t, key))
}

/// The index of the first misc block whose header holds `key`.
fn find_misc(ms: &Vec<Misc>, key: &str) -> (res: Option<usize>)
    ensures
        match res {
            Some(i) => i < ms.len() && misc_index(ms@, key@) == Some(i as nat),
            None => misc_index(ms@, key@) is None,
        },
{
    let ghost headers = ms@.map_values(|m: Misc| m.header.text@);
    let ghost p = |t: Seq<char>| spec_contains_seq(t, key@);
    let k = chars_of(key);
    let mut i: usize = 0;
    while i < ms.len()
        invariant
            i <= ms.len(),
            headers == ms@.map_values(|m: Misc| m.header.text@),
            p == (|t: Seq<char>| spec_contains_seq(t, key@)),
            k@ == key@,
            forall|j: int| 0 <= j < i ==> !p(#[trigger] headers[j]),
        decreases ms.len() - i,
    {
        let h = chars_of(ms[i].header.text.as_str());
        proof {
            assert(headers[i as int] == ms@[i as int].header.text@);
        }
        if contains_seq(&h, &k) {
            proof {
                crate::providers::jumbo_bridge::lemma_first_match_found(headers, p, i as nat);
            }
            return Some(i);
        }
        i = i + 1;
    }
    proof {
        crate::providers::jumbo_bridge::lemma_first_match_found(headers, p, ms.len() as nat);
    }
    None
}

/// The ingredient names of a product: those of the rich-text blob of the first misc block about
/// `Ingrediënten`; none when it is missing or does not read.
pub open spec fn spec_picnic_ingredients(ms: Seq<Misc>) -> Seq<Seq<char>> {
    match misc_index(ms, "Ingrediënten"@) {
        Some(i) => match ms[i as int].body {
            Body::Pml { pml_content } => match pml_content.component {
                PmlComponent::RichText(item) => match spec_parse_ingredient_blob(item.markdown@) {
                    Some(names) => names,
                    None => seq![],
                },
                _ => seq![],
            },
            _ => seq![],
        },
        None => seq![],
    }
}

fn picnic_ingredients(ms: &Vec<Misc>) -> (res: Vec<IngredientInfo>)
    ensures
        res@.map_values(|i: IngredientInfo| i.name@) == spec_picnic_ingredients(ms@),
{
    let empty: Vec<IngredientInfo> = Vec::new();
    proof {
        assert(empty@.map_values(|i: IngredientInfo| i.name@) =~= Seq::<Seq<char>>::empty());
    }
    match find_misc(ms, "Ingrediënten") {
        Some(i) => match &ms[i].body {
            Body::Pml { pml_content } => match &pml_content.component {
                PmlComponent::RichText(item) => match parse_picnic_ingredient_blob(item.markdown.as_str()) {
                    Some(v) => v,
                    None => empty,
                },
                _ => empty,
            },
            _ => empty,
        },
        None => empty,
    }
}

/// The view of a nutrition table: unit, then (name, value, sub-values) per value.
pub open spec fn table_view(t: NutritionalTable) -> (Seq<char>, Seq<(Seq<char>, Seq<char>, Seq<(Seq<char>, Seq<char>)>)>) {
    (
        t.default_unit@,
        t.values@.map_values(
            |v: NutritionalValue|
                (v.name@, v.value@, v.sub_values@.map_values(|s: NutritionalSubValue| (s.name@, s.value@))),
        ),
    )
}

/// The view of nutritional information: unit, then (name, value, sub-values) per item.
pub open spec fn nutrition_view(n: Option<NutritionalInfo>) -> Option<
    (Seq<char>, Seq<(Seq<char>, Seq<char>, Seq<(Seq<char>, Seq<char>)>)>),
> {
    match n {
        Some(info) => Some(
            (
                info.info_unit@,
                info.items@.map_values(
                    |it: NutritionalItem|
                        (it.name@, it.value@, it.sub_values@.map_values(|s: SubNutritionalItem| (s.name@, s.value@))),
                ),
            ),
        ),
        None => None,
    }
}

/// The nutrition of a product: the table of the first misc block about `Voedingswaarde`; none when it is
/// missing or holds no table.
pub open spec fn spec_picnic_nutrition(ms: Seq<Misc>) -> Option<
    (Seq<char>, Seq<(Seq<char>, Seq<char>, Seq<(Seq<char>, Seq<char>)>)>),
> {
    match misc_index(ms, "Voedingswaarde"@) {
        Some(i) => match ms[i as int].body {
            Body::NutritionalTable { nutritional_table } => Some(table_view(nutritional_table)),
            _ => None,
        },
        None => None,
    }
}

fn nutritional_item(v: &NutritionalValue) -> (res: NutritionalItem)
    ensures
        (res.name@, res.value@, res.sub_values@.map_values(|s: SubNutritionalItem| (s.name@, s.value@))) == (
            v.name@,
            v.value@,
            v.sub_values@.map_values(|s: NutritionalSubValue| (s.name@, s.value@)),
        ),
{
    let ghost subs = v.sub_values@.map_values(|s: NutritionalSubValue| (s.name@, s.value@));
    let mut sub_values: Vec<SubNutritionalItem> = Vec::new();
    let mut i: usize = 0;
    while i < v.sub_values.len()
        invariant
            i <= v.sub_values.len(),
            subs == v.sub_values@.map_values(|s: NutritionalSubValue| (s.name@, s.value@)),
            sub_values@.map_values(|s: SubNutritionalItem| (s.name@, s.value@)) == subs.take(i as int),
        decreases v.sub_values.len() - i,
    {
        let item = SubNutritionalItem { name: v.sub_values[i].name.clone(), value: v.sub_values[i].value.clone() };
        let ghost prev = sub_values@;
        sub_values.push(item);
        proof {
            assert(subs.take(i + 1) =~= subs.take(i as int).push((item.name@, item.value@)));
            assert(sub_values@.map_values(|s: SubNutritionalItem| (s.name@, s.value@)) =~= prev.map_values(
                |s: SubNutritionalItem| (s.name@, s.value@),
            ).push((item.name@, item.value@)));
        }
        i = i + 1;
    }
    proof {
        assert(subs.take(v.sub_values.len() as int) =~= subs);
    }
    NutritionalItem { name: v.name.clone(), value: v.value.clone(), sub_values }
}

fn nutrition_of_table(t: &NutritionalTable) -> (res: NutritionalInfo)
    ensures
        nutrition_view(Some(res)) == Some(table_view(*t)),
{
    let ghost want = table_view(*t).1;
    let mut items: Vec<NutritionalItem> = Vec::new();
    let mut i: usize = 0;
    while i < t.values.len()
        invariant
            i <= t.values.len(),
            want == table_view(*t).1,
            items@.map_values(
                |it: NutritionalItem|
                    (it.name@, it.value@, it.sub_values@.map_values(|s: SubNutritionalItem| (s.name@, s.value@))),
            ) == want.take(i as int),
        decreases t.values.len() - i,
    {
        let item = nutritional_item(&t.values[i]);
        let ghost prev = items@;
        items.push(item);
        proof {
            assert(want[i as int] == (
                t.values@[i as int].name@,
                t.values@[i as int].value@,
                t.values@[i as int].sub_values@.map_values(|s: NutritionalSubValue| (s.name@, s.value@)),
            ));
            assert(want.take(i + 1) =~= want.take(i as int).push(want[i as int]));
            assert(items@.map_values(
                |it: NutritionalItem|
                    (it.name@, it.value@, it.sub_values@.map_values(|s: SubNutritionalItem| (s.name@, s.value@))),
            ) =~= prev.map_values(
                |it: NutritionalItem|
                    (it.name@, it.value@, it.sub_values@.map_values(|s: SubNutritionalItem| (s.name@, s.value@))),
            ).push(want[i as int]));
        }
        i = i + 1;
    }
    proof {
        assert(want.take(t.values.len() as int) =~= want);
    }
    NutritionalInfo { info_unit: t.default_unit.clone(), items }
}

fn picnic_nutrition(ms: &Vec<Misc>) -> (res: Option<NutritionalInfo>)
    ensures
        nutrition_view(res) == spec_picnic_nutrition(ms@),
{
    match find_misc(ms, "Voedingswaarde") {
        Some(i) => match &ms[i].body {
            Body::NutritionalTable { nutritional_table } => Some(nutrition_of_table(nutritional_table)),
            _ => None,
        },
        None => None,
    }
}

/// The additional item of one child of a stack: storage advice when it mentions `Bewaren`, else the
/// country of origin when it mentions `Land van herkomst`.
pub open spec fn child_item(c: PmlChildren) -> Seq<(ItemType, Seq<char>)> {
    if spec_contains_seq(c.markdown@, "Bewaren"@) {
        seq![(ItemType::StorageAdvice, c.markdown@)]
    } else if spec_contains_seq(c.markdown@, "Land van herkomst"@) {
        seq![(ItemType::CountryOfOrigin, c.markdown@)]
    } else {
        seq![]
    }
}

/// The additional items of the children of a stack.
pub open spec fn stack_items(cs: Seq<PmlChildren>) -> Seq<(ItemType, Seq<char>)>
    decreases cs.len(),
{
    if cs.len() == 0 {
        seq![]
    } else {
        stack_items(cs.drop_last()) + child_item(cs.last())
    }
}

/// The additional items of one misc block (the ingredient and nutrition blocks are read elsewhere): a
/// stack gives storage advice and country of origin, rich text under `Bereiding` preparation advice.
pub open spec fn misc_item(m: Misc) -> Seq<(ItemType, Seq<char>)> {
    if m.header.text@ == "Ingrediënten"@ || m.header.text@ == "Voedingswaarde"@ {
        seq![]
    } else {
        match m.body {
            Body::Pml { pml_content } => match pml_content.component {
                PmlComponent::Stack(stack) => stack_items(stack.children@),
                PmlComponent::RichText(text) => if m.header.text@ == "Bereiding"@ {
                    seq![(ItemType::PreparationAdvice, text.markdown@)]
                } else {
                    seq![]
                },
                _ => seq![],
            },
            _ => seq![],
        }
    }
}

/// The additional items of misc blocks, in order.
pub open spec fn misc_items(ms: Seq<Misc>) -> Seq<(ItemType, Seq<char>)>
    decreases ms.len(),
{
    if ms.len() == 0 {
        seq![]
    } else {
        misc_items(ms.drop_last()) + misc_item(ms.last())
    }
}

/// The view of markdown items.
pub open spec fn items_view(items: Seq<ItemInfo>) -> Seq<(ItemType, Seq<char>)> {
    items.map_values(|i: ItemInfo| (i.item_type, i.text@))
}

/// Whether all items are markdown.
pub open spec fn all_markdown(items: Seq<ItemInfo>) -> bool {
    forall|i: int| 0 <= i < items.len() ==> (#[trigger] items[i]).text_type == TextType::Markdown
}

fn push_markdown(items: &mut Vec<ItemInfo>, t: ItemType, text: String)
    requires
        all_markdown(old(items)@),
    ensures
        items_view(final(items)@) == items_view(old(items)@).push((t, text@)),
        all_markdown(final(items)@),
{
    let ghost prev = items@;
    let item = ItemInfo { item_type: t, text, text_type: TextType::Markdown };
    items.push(item);
    proof {
        assert(items_view(items@) =~= items_view(prev).push((t, item.text@)));
    }
}

fn push_stack_items(items: &mut Vec<ItemInfo>, cs: &Vec<PmlChildren>)
    requires
        all_markdown(old(items)@),
    ensures
        items_view(final(items)@) == items_view(old(items)@) + stack_items(cs@),
        all_markdown(final(items)@),
{
    let ghost start = items_view(items@);
    let mut i: usize = 0;
    proof {
        assert(cs@.take(0) =~= Seq::<PmlChildren>::empty());
        assert(start + stack_items(cs@.take(0)) =~= start);
    }
    while i < cs.len()
        invariant
            i <= cs.len(),
            all_markdown(items@),
            items_view(items@) == start + stack_items(cs@.take(i as int)),
        decreases cs.len() - i,
    {
        proof {
            assert(cs@.take(i + 1).drop_last() =~= cs@.take(i as int));
            assert(cs@.take(i + 1).last() == cs@[i as int]);
        }
        let md = chars_of(cs[i].markdown.as_str());
        let bewaren = chars_of("Bewaren");
        let herkomst = chars_of("Land van herkomst");
        let ghost before = items_view(items@);
        if contains_seq(&md, &bewaren) {
            push_markdown(items, ItemType::StorageAdvice, cs[i].markdown.clone());
        } else if contains_seq(&md, &herkomst) {
            push_markdown(items, ItemType::CountryOfOrigin, cs[i].markdown.clone());
        }
        proof {
            assert(items_view(items@) =~= before + child_item(cs@[i as int]));
            assert(start + stack_items(cs@.take(i + 1)) =~= start + stack_items(cs@.take(i as int)) + child_item(
                cs@[i as int],
            ));
        }
        i = i + 1;
    }
    proof {
        assert(cs@.take(cs.len() as int) =~= cs@);
    }
}

fn picnic_misc_items(ms: &Vec<Misc>) -> (res: Vec<ItemInfo>)
    ensures
        items_view(res@) == misc_items(ms@),
        all_markdown(res@),
{
    let mut items: Vec<ItemInfo> = Vec::new();
    let mut i: usize = 0;
    proof {
        assert(ms@.take(0) =~= Seq::<Misc>::empty());
        assert(items_view(items@) =~= Seq::<(ItemType, Seq<char>)>::empty());
    }
    while i < ms.len()
        invariant
            i <= ms.len(),
            all_markdown(items@),
            items_view(items@) == misc_items(ms@.take(i as int)),
        decreases ms.len() - i,
    {
        proof {
            assert(ms@.take(i + 1).drop_last() =~= ms@.take(i as int));
            assert(ms@.take(i + 1).last() == ms@[i as int]);
        }
        let ghost before = items_view(items@);
        let header = chars_of(ms[i].header.text.as_str());
        if !eq_lit(&header, "Ingrediënten") && !eq_lit(&header, "Voedingswaarde") {
            match &ms[i].body {
                Body::Pml { pml_content } => match &pml_content.component {
                    PmlComponent::Stack(stack) => push_stack_items(&mut items, &stack.children),
                    PmlComponent::RichText(text) => {
                        if eq_lit(&header, "Bereiding") {
                            push_markdown(&mut items, ItemType::PreparationAdvice, text.markdown.clone());
                        }
                    },
                    _ => {},
                },
                _ => {},
            }
        }
        proof {
            assert(items_view(items@) =~= before + misc_item(ms@[i as int]));
        }
        i = i + 1;
    }
    proof {
        assert(ms@.take(ms.len() as int) =~= ms@);
    }
    items
}


// ** Fresh labels of highlights **

/// The pattern of a freshness period in a highlight: a number of days or weeks.
pub open spec fn fresh_pattern() -> Seq<char> {
    r"(\d+) (dagen|dag|week|weken)"@
}

/// The number of days of one unit of a freshness period.
pub open spec fn fresh_multiplier(unit: Seq<char>) -> nat {
    if unit == "week"@ || unit == "weken"@ {
        7
    } else {
        1
    }
}

/// The days fresh of one match of [fresh_pattern]; `None` where reading it fails (a group missing, a
/// number that does not read as a `u32`, or days that overflow a `u32`).
pub open spec fn fresh_of_capture(caps: Seq<Option<Seq<char>>>) -> Option<nat> {
    match (cap(caps, 1), cap(caps, 2)) {
        (Some(n), Some(u)) => match spec_parse_unsigned(n, u32::MAX as nat) {
            Some(v) => if v * fresh_multiplier(u) <= u32::MAX {
                Some(v * fresh_multiplier(u))
            } else {
                None
            },
            None => None,
        },
        _ => None,
    }
}

/// The matches of [fresh_pattern] in the first highlight about `dagen vers`.
pub open spec fn highlight_captures(hs: Seq<Highlight>) -> Seq<Seq<Option<Seq<char>>>> {
    match first_match(hs.map_values(|h: Highlight| h.text@), |t: Seq<char>| spec_contains_seq(t, "dagen vers"@)) {
        Some(i) => regex_captures_all(fresh_pattern(), hs[i as int].text@),
        None => seq![],
    }
}

/// Whether every freshness period in the highlights reads.
pub open spec fn highlights_supported(hs: Seq<Highlight>) -> bool {
    forall|i: int| 0 <= i < highlight_captures(hs).len() ==> fresh_of_capture(#[trigger] highlight_captures(hs)[i]) is Some
}

/// The fresh label decorators of the highlights: one per freshness period, in days.
pub open spec fn highlight_fresh(hs: Seq<Highlight>) -> Seq<WggDecorator> {
    highlight_captures(hs).map_values(
        |c: Seq<Option<Seq<char>>>| WggDecorator::FreshLabel(FreshLabel { days_fresh: fresh_of_capture(c).unwrap() as u32 }),
    )
}

/// The index of the first highlight about `dagen vers`.
fn find_fresh_highlight(hs: &Vec<Highlight>) -> (res: Option<usize>)
    ensures
        match res {
            Some(i) => i < hs.len() && first_match(
                hs@.map_values(|h: Highlight| h.text@),
                |t: Seq<char>| spec_contains_seq(t, "dagen vers"@),
            ) == Some(i as nat),
            None => first_match(
                hs@.map_values(|h: Highlight| h.text@),
                |t: Seq<char>| spec_contains_seq(t, "dagen vers"@),
            ) is None,
        },
{
    let ghost texts = hs@.map_values(|h: Highlight| h.text@);
    let ghost p = |t: Seq<char>| spec_contains_seq(t, "dagen vers"@);
    let key = chars_of("dagen vers");
    let mut i: usize = 0;
    while i < hs.len()
        invariant
            i <= hs.len(),
            texts == hs@.map_values(|h: Highlight| h.text@),
            p == (|t: Seq<char>| spec_contains_seq(t, "dagen vers"@)),
            key@ == "dagen vers"@,
            forall|j: int| 0 <= j < i ==> !p(#[trigger] texts[j]),
        decreases hs.len() - i,
    {
        let t = chars_of(hs[i].text.as_str());
        proof {
            assert(texts[i as int] == hs@[i as int].text@);
        }
        if contains_seq(&t, &key) {
            proof {
                crate::providers::jumbo_bridge::lemma_first_match_found(texts, p, i as nat);
            }
            return Some(i);
        }
        i = i + 1;
    }
    proof {
        crate::providers::jumbo_bridge::lemma_first_match_found(texts, p, hs.len() as nat);
    }
    None
}

/// The days fresh of one match, see [fresh_of_capture].
fn fresh_of_match(caps: &Vec<Option<String>>) -> (res: Option<u32>)
    ensures
        match res {
            Some(d) => fresh_of_capture(captures_view(caps@)) == Some(d as nat),
            None => fresh_of_capture(captures_view(caps@)) is None,
        },
{
    if caps.len() < 3 {
        return None;
    }
    proof {
        assert(captures_view(caps@)[1] == crate::patterns::opt_string_view(caps@[1]));
        assert(captures_view(caps@)[2] == crate::patterns::opt_string_view(caps@[2]));
    }
    match (&caps[1], &caps[2]) {
        (Some(n), Some(u)) => {
            let digits = chars_of(n.as_str());
            let unit = chars_of(u.as_str());
            let multiplier: u32 = if eq_lit(&unit, "week") || eq_lit(&unit, "weken") {
                7
            } else {
                1
            };
            match parse_u32(&digits) {
                Some(v) => v.checked_mul(multiplier),
                None => None,
            }
        },
        _ => None,
    }
}

/// Whether every freshness period in the highlights reads, see [highlights_supported].
pub fn picnic_highlights_supported(hs: &Vec<Highlight>) -> (res: bool)
    ensures
        res == highlights_supported(hs@),
{
    let idx = match find_fresh_highlight(hs) {
        Some(i) => i,
        None => return true,
    };
    let all = captures_all(r"(\d+) (dagen|dag|week|weken)", hs[idx].text.as_str());
    let ghost all_view = all@.map_values(|c: Vec<Option<String>>| captures_view(c@));
    proof {
        assert(all_view == highlight_captures(hs@));
    }
    let mut i: usize = 0;
    while i < all.len()
        invariant
            i <= all.len(),
            all_view == all@.map_values(|c: Vec<Option<String>>| captures_view(c@)),
            all_view == highlight_captures(hs@),
            forall|j: int| 0 <= j < i ==> fresh_of_capture(#[trigger] all_view[j]) is Some,
        decreases all.len() - i,
    {
        proof {
            assert(all_view[i as int] == captures_view(all@[i as int]@));
        }
        if fresh_of_match(&all[i]).is_none() {
            return false;
        }
        i = i + 1;
    }
    true
}

/// Append the fresh labels of the highlights to `result`.
fn push_highlight_fresh(hs: &Vec<Highlight>, result: &mut Vec<WggDecorator>)
    requires
        highlights_supported(hs@),
    ensures
        final(result)@ == old(result)@ + highlight_fresh(hs@),
{
    let idx = match find_fresh_highlight(hs) {
        Some(i) => i,
        None => {
            proof {
                assert(highlight_fresh(hs@) =~= Seq::<WggDecorator>::empty());
                assert(result@ =~= old(result)@ + highlight_fresh(hs@));
            }
            return;
        },
    };
    let all = captures_all(r"(\d+) (dagen|dag|week|weken)", hs[idx].text.as_str());
    let ghost all_view = all@.map_values(|c: Vec<Option<String>>| captures_view(c@));
    let ghost start = result@;
    let ghost fresh = highlight_fresh(hs@);
    proof {
        assert(all_view == highlight_captures(hs@));
    }
    let mut i: usize = 0;
    proof {
        assert(start + fresh.take(0) =~= start);
    }
    while i < all.len()
        invariant
            i <= all.len(),
            all_view == all@.map_values(|c: Vec<Option<String>>| captures_view(c@)),
            all_view == highlight_captures(hs@),
            highlights_supported(hs@),
            fresh == highlight_fresh(hs@),
            fresh.len() == all_view.len(),
            result@ == start + fresh.take(i as int),
        decreases all.len() - i,
    {
        proof {
            assert(all_view[i as int] == captures_view(all@[i as int]@));
            assert(fresh_of_capture(highlight_captures(hs@)[i as int]) is Some);
        }
        match fresh_of_match(&all[i]) {
            Some(days_fresh) => {
                result.push(WggDecorator::FreshLabel(FreshLabel { days_fresh }));
                proof {
                    assert(fresh[i as int] == WggDecorator::FreshLabel(FreshLabel { days_fresh }));
                    assert(fresh.take(i + 1) =~= fresh.take(i as int).push(fresh[i as int]));
                }
            },
            None => {},
        }
        i = i + 1;
    }
    proof {
        assert(fresh.take(all.len() as int) =~= fresh);
    }
}


// ** Full products **

/// The sale information of a Picnic product: its promo label, without additional labels, valid as the
/// validity label of its decorators says or else for the week of `now`.
pub open spec fn spec_product_sale(promo: Option<PromoText>, validity: Option<SaleValidity>, now: int) -> Option<
    (Seq<char>, Seq<Seq<char>>, SaleValidity, Option<SaleType>),
> {
    match promo {
        Some(p) => Some(
            (
                p.text@,
                seq![],
                match validity {
                    Some(v) => v,
                    None => guessed_validity(now),
                },
                spec_parse_sale_label(p.text@),
            ),
        ),
        None => None,
    }
}

/// What a Picnic product needs to be parsed: its validity labels (and those of its replacements) and
/// its freshness periods read.
pub open spec fn product_supported(p: ProductArticle) -> bool {
    decorators_supported(p.decorators@) && highlights_supported(p.highlights@)
}

/// Whether `r` is the product of Picnic product `p`, at time `now` (which only matters for a sale
/// without a validity label).
pub open spec fn picnic_product_of(r: WggProduct, p: ProductArticle, now: int) -> bool {
    let ds = p.decorators@;
    let quantity = spec_picnic_quantity(p.unit_quantity@);
    &&& r.id == p.id
    &&& r.name == p.name
    &&& r.description.text@ == spec_picnic_description(p.description)
    &&& r.description.text_type == TextType::Markdown
    &&& r.price_info.original_price == (match p.price_info.original_price {
        Some(o) => o,
        None => p.price_info.price,
    })
    &&& r.price_info.display_price == last_price(ds, p.price_info.price)
    &&& quantity_view(r.unit_quantity) == quantity
    &&& unit_price_view(r.price_info.unit_price) == spec_picnic_unit_price(
        p.price_info.base_price_text,
        quantity,
        p.price_info.price as nat,
    )
    &&& r.image_urls@.map_values(|s: String| s@) == spec_picnic_image_urls(p.images@)
    &&& r.ingredients@.map_values(|i: IngredientInfo| i.name@) == spec_picnic_ingredients(p.misc@)
    &&& nutrition_view(r.nutritional) == spec_picnic_nutrition(p.misc@)
    &&& r.allergy_info@.map_values(|t: AllergyTags| (t.name@, t.contains)) == spec_picnic_allergies(p.allergies)
    &&& items_view(r.additional_items@) == misc_items(p.misc@)
    &&& all_markdown(r.additional_items@)
    &&& r.decorators@ == fresh_decorators(
        spec_prep_decorators(p.unit_quantity@) + highlight_fresh(p.highlights@),
        ds,
    )
    &&& opt_sale_info_view(r.sale_information) == spec_product_sale(p.labels.promo, sale_decorators(ds).1, now)
    &&& unavailable_of_decorators(r.unavailable_details, ds, now)
    &&& r.provider == Provider::Picnic
}

/// Parse a full Picnic [ProductArticle] to our normalised [WggProduct], at time `now` (which only matters
/// for a sale without a validity label).
pub fn parse_picnic_full_product_to_product_at(product: ProductArticle, now: i64) -> (res: WggProduct)
    requires
        product_supported(product),
        min_timestamp() <= now <= max_timestamp(),
    ensures
        picnic_product_of(res, product, now as int),
{
    let ghost p = product;
    let ghost ds = product.decorators@;
    proof {
        lemma_decorators_supported(ds);
    }
    let text = picnic_description(product.description);
    let image_urls = picnic_image_urls(&product.images);
    // Unit quantity, or else the preparation time
    let mut decorators: Vec<WggDecorator> = Vec::new();
    let unit_quantity = match parse_quantity(product.unit_quantity.as_str()) {
        Some(q) => q,
        None => {
            match parse_prep_time(product.unit_quantity.as_str()) {
                Some(minutes) => decorators.push(WggDecorator::PrepTime(PrepTime { time_minutes: minutes })),
                None => {},
            }
            UnitQuantity::default()
        },
    };
    proof {
        assert(decorators@ =~= spec_prep_decorators(p.unit_quantity@));
    }
    // Unit price, from the price before decorators
    let unit_price = match &product.price_info.base_price_text {
        Some(t) => match parse_unit_price(t.as_str()) {
            Some(up) => Some(up),
            None => derive_unit_price(&unit_quantity, product.price_info.price),
        },
        None => derive_unit_price(&unit_quantity, product.price_info.price),
    };
    let ingredients = picnic_ingredients(&product.misc);
    let nutritional = picnic_nutrition(&product.misc);
    let allergy_info = picnic_allergies(&product.allergies);
    // Fresh labels of the highlights
    push_highlight_fresh(&product.highlights, &mut decorators);
    let ghost initial = decorators@;
    // Sales
    let (_, sale_validity) = parse_decorators_for_sale(&product.decorators);
    let sale_information = match product.labels.promo {
        Some(promo) => {
            let sale_type = parse_sale_label(promo.text.as_str());
            let validity = match sale_validity {
                Some(v) => v,
                None => get_guessed_sale_validity(now),
            };
            let info = SaleInformation {
                label: promo.text,
                additional_label: Vec::new(),
                sale_validity: validity,
                sale_type,
            };
            proof {
                assert(info.additional_label@.map_values(|t: String| t@) =~= Seq::<Seq<char>>::empty());
            }
            Some(info)
        },
        None => None,
    };
    let additional_items = picnic_misc_items(&product.misc);
    // Remaining decorators
    let mut display_price: u32 = product.price_info.price;
    let mut unavailable_details: Option<UnavailableItem> = None;
    let mut rest = product.decorators;
    let mut k: usize = 0;
    proof {
        assert(ds.skip(0) =~= ds);
        assert(ds.take(0) =~= Seq::<Decorator>::empty());
        assert(ds.len() == rest.len());
    }
    while rest.len() > 0
        invariant
            k + rest.len() == ds.len(),
            ds.len() <= usize::MAX,
            rest@ == ds.skip(k as int),
            forall|i: int| 0 <= i < ds.len() ==> decorator_supported(#[trigger] ds[i]),
            min_timestamp() <= now <= max_timestamp(),
            decorators@ == fresh_decorators(initial, ds.take(k as int)),
            display_price == last_price(ds.take(k as int), p.price_info.price),
            unavailable_of_decorators(unavailable_details, ds.take(k as int), now as int),
        decreases rest.len(),
    {
        let dec = rest.remove(0);
        proof {
            assert(rest@ =~= ds.skip(k + 1));
            assert(dec == ds[k as int]);
            assert(ds.take(k + 1).drop_last() =~= ds.take(k as int));
            assert(ds.take(k + 1).last() == ds[k as int]);
        }
        parse_decorator_at(dec, &mut decorators, &mut display_price, &mut unavailable_details, now);
        k = k + 1;
    }
    proof {
        assert(ds.take(k as int) =~= ds);
    }
    let original_price = match product.price_info.original_price {
        Some(o) => o,
        None => product.price_info.price,
    };
    WggProduct {
        id: product.id,
        name: product.name,
        description: Description { text, text_type: TextType::Markdown },
        price_info: PriceInfo { display_price, original_price, unit_price },
        unit_quantity,
        unavailable_details,
        image_urls,
        ingredients,
        nutritional,
        allergy_info,
        additional_items,
        decorators,
        sale_information,
        provider: Provider::Picnic,
    }
}

/// The message of the error for a product whose validity labels or freshness periods do not read.
pub open spec fn unreadable_product_message() -> Seq<char> {
    "Picnic product holds a validity label or freshness period that cannot be read"@
}

/// Parse a full Picnic [ProductArticle] to our normalised [WggProduct], reading the clock for a sale
/// without a validity label. A product whose validity labels or freshness periods cannot be read (see
/// [product_supported]) gives an error.
pub fn parse_picnic_full_product_to_product(product: ProductArticle) -> (res: Result<WggProduct, ProviderError>)
    ensures
        res is Ok <==> product_supported(product),
        res matches Ok(r) ==> exists|now: int|
            min_timestamp() <= now <= max_timestamp() && picnic_product_of(r, product, now),
        res matches Err(e) ==> e matches ProviderError::Other(m) && m@ == unreadable_product_message(),
{
    if !picnic_decorators_supported(&product.decorators) || !picnic_highlights_supported(&product.highlights) {
        return Err(
            ProviderError::Other(
                String::from_str("Picnic product holds a validity label or freshness period that cannot be read"),
            ),
        );
    }
    let now = now_timestamp();
    Ok(parse_picnic_full_product_to_product_at(product, now))
}

} // verus!
