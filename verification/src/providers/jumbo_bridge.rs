use vstd::prelude::*;

use crate::jumbo::ids::Id;
use crate::jumbo::models::{AvailabilityType, NutritionalInformation, PartialProduct, Prices, ProductNutrition};
use crate::numbers::spec_parse_unsigned;
use crate::patterns::{captures_all, captures_view, regex_captures_all};
use crate::providers::common_bridge::{
    cap, derive_unit_price, parse_quantity, parse_sale_label, parse_unit_component,
    quantity_view, spec_derive_unit_price, spec_parse_quantity, spec_parse_sale_label,
    spec_parse_unit_component,
};
use crate::providers::models::{
    AllergyTags, AllergyType, FreshLabel, NutritionalItem, PriceInfo, Provider, SaleInformation,
    SaleValidity, SubNutritionalItem, UnavailableItem, UnavailableReason, Unit, UnitPrice,
    UnitQuantity, WggDecorator, WggSearchProduct,
};
use crate::providers::models::sale_types::SaleType;
use crate::text::{chars_of, contains_seq, spec_contains_seq, split_whitespace, tokens};

verus! {

// ** Freshness **

/// `s` without its trailing run of `c` (`str::trim_end_matches` with one character).
pub open spec fn trim_end(s: Seq<char>, c: char) -> Seq<char>
    decreases s.len(),
{
    if s.len() > 0 && s.last() == c {
        trim_end(s.drop_last(), c)
    } else {
        s
    }
}

pub fn count_trailing(v: &Vec<char>, c: char) -> (res: usize)
    ensures
        res <= v.len(),
        trim_end(v@, c) == v@.take(v.len() - res),
{
    let mut n: usize = v.len();
    proof {
        assert(v@.take(v.len() as int) =~= v@);
    }
    while n > 0 && v[n - 1] == c
        invariant
            n <= v.len(),
            trim_end(v@, c) == trim_end(v@.take(n as int), c),
        decreases n,
    {
        proof {
            assert(v@.take(n as int).drop_last() =~= v@.take(n - 1));
        }
        n = n - 1;
    }
    v.len() - n
}

/// The [FreshLabel] in a Jumbo badge such as `7+ dagen vers`: when the badge holds `dagen vers`, its
/// first word without trailing `+`, read as a number of days.
pub open spec fn spec_parse_badge_description(badge: Seq<char>) -> Option<nat> {
    if spec_contains_seq(badge, "dagen vers"@) {
        let words = tokens(badge);
        if words.len() > 0 {
            spec_parse_unsigned(trim_end(words[0], '+'), u32::MAX as nat)
        } else {
            None
        }
    } else {
        None
    }
}

/// Parse the Jumbo `badge_description` element, which frequently contains a [FreshLabel] decorator.
///
/// Format expected: `7+ dagen vers`
pub fn parse_badge_description(badge_desc: &str) -> (res: Option<FreshLabel>)
    ensures
        res matches Some(f) ==> spec_parse_badge_description(badge_desc@) == Some(f.days_fresh as nat),
        res is None ==> spec_parse_badge_description(badge_desc@) is None,
{
    let v = chars_of(badge_desc);
    let pattern = chars_of("dagen vers");
    if !contains_seq(&v, &pattern) {
        return None;
    }
    let words = split_whitespace(&v);
    if words.len() == 0 {
        return None;
    }
    proof {
        assert(words@.map_values(|w: Vec<char>| w@)[0] == words@[0]@);
    }
    let trailing = count_trailing(&words[0], '+');
    let end = words[0].len() - trailing;
    proof {
        assert(words@[0]@.subrange(0, end as int) =~= words@[0]@.take(end as int));
    }
    match crate::numbers::parse_unsigned(&words[0], 0, end, u32::MAX as u64) {
        Some(d) => Some(FreshLabel { days_fresh: d as u32 }),
        None => None,
    }
}

// ** Nutrition **

/// Whether a nutrition entry belongs to the entry before it: it is unnamed or a `Waarvan` entry.
pub open spec fn is_sub_entry(e: ProductNutrition) -> bool {
    e.name@.len() == 0 || spec_contains_seq(e.name@, "Waarvan"@)
}

/// The first index at or after `j` whose entry is not a sub-entry, or the number of entries.
pub open spec fn sub_end(es: Seq<ProductNutrition>, j: nat) -> nat
    decreases es.len() - j,
{
    if j >= es.len() {
        es.len()
    } else if is_sub_entry(es[j as int]) {
        sub_end(es, j + 1)
    } else {
        j
    }
}

/// The run of sub-entries from `j` on ends between `j` and the end of the list, holds only sub-entries,
/// and is followed by an entry that is not one.
pub proof fn lemma_sub_end(es: Seq<ProductNutrition>, j: nat)
    ensures
        j <= es.len() ==> j <= sub_end(es, j) <= es.len(),
        j > es.len() ==> sub_end(es, j) == es.len(),
        forall|k: int| j <= k < sub_end(es, j) ==> is_sub_entry(#[trigger] es[k]),
        sub_end(es, j) < es.len() ==> !is_sub_entry(es[sub_end(es, j) as int]),
    decreases es.len() - j,
{
    if j < es.len() && is_sub_entry(es[j as int]) {
        lemma_sub_end(es, j + 1);
    }
}

/// The view of a nutritional item: name, value and the (name, value) of each sub-value.
pub open spec fn nutritional_item_view(it: NutritionalItem) -> (String, String, Seq<(String, String)>) {
    (it.name, it.value, it.sub_values@.map_values(|s: SubNutritionalItem| (s.name, s.value)))
}

/// The grouped nutrition from entry `i` on: each entry with the run of sub-entries that follows it, the
/// next group starting after that run, so that every entry is listed once.
pub open spec fn nutrition_groups(es: Seq<ProductNutrition>, i: nat) -> Seq<(String, String, Seq<(String, String)>)>
    decreases es.len() - i,
{
    if i >= es.len() {
        seq![]
    } else {
        let e = sub_end(es, i + 1);
        let subs = es.subrange(i as int + 1, e as int).map_values(|x: ProductNutrition| (x.name, x.value_per100g));
        if e <= i {
            seq![]
        } else {
            proof {
                lemma_sub_end(es, i + 1);
            }
            seq![(es[i as int].name, es[i as int].value_per100g, subs)] + nutrition_groups(es, e)
        }
    }
}

/// The entries that nutrition groups list: each group's entry followed by its sub-entries.
pub open spec fn flatten_groups(gs: Seq<(String, String, Seq<(String, String)>)>) -> Seq<(String, String)>
    decreases gs.len(),
{
    if gs.len() == 0 {
        seq![]
    } else {
        seq![(gs[0].0, gs[0].1)] + gs[0].2 + flatten_groups(gs.drop_first())
    }
}

/// Grouping nutrition loses and repeats no entry: the groups from entry `i` on list exactly the entries
/// from `i` on, in order.
pub proof fn lemma_nutrition_groups_flatten(es: Seq<ProductNutrition>, i: nat)
    requires
        i <= es.len(),
    ensures
        flatten_groups(nutrition_groups(es, i)) == es.subrange(i as int, es.len() as int).map_values(
            |x: ProductNutrition| (x.name, x.value_per100g),
        ),
    decreases es.len() - i,
{
    let f = |x: ProductNutrition| (x.name, x.value_per100g);
    if i == es.len() {
        assert(es.subrange(i as int, es.len() as int).map_values(f) =~= Seq::<(String, String)>::empty());
    } else {
        lemma_sub_end(es, i + 1);
        let e = sub_end(es, i + 1);
        lemma_nutrition_groups_flatten(es, e);
        let gs = nutrition_groups(es, i);
        let head = (es[i as int].name, es[i as int].value_per100g, es.subrange(i as int + 1, e as int).map_values(f));
        assert(gs == seq![head] + nutrition_groups(es, e));
        assert(gs.drop_first() =~= nutrition_groups(es, e));
        assert(gs[0] == head);
        assert(es.subrange(i as int, es.len() as int).map_values(f) =~= seq![f(es[i as int])] + es.subrange(
            i as int + 1,
            e as int,
        ).map_values(f) + es.subrange(e as int, es.len() as int).map_values(f));
    }
}

/// Whether a nutrition entry belongs to the entry before it.
fn is_sub(e: &ProductNutrition) -> (res: bool)
    ensures
        res == is_sub_entry(*e),
{
    let name = chars_of(e.name.as_str());
    let waarvan = chars_of("Waarvan");
    name.len() == 0 || contains_seq(&name, &waarvan)
}

/// Parse nutritional information of part of the product.
///
/// Related entries are grouped in a parent/child relation, f.e, fats & saturated fats.
pub fn parse_nutritional_info(nut_info: &NutritionalInformation) -> (res: Vec<NutritionalItem>)
    ensures
        res@.map_values(|it: NutritionalItem| nutritional_item_view(it)) == nutrition_groups(
            nut_info.nutritional_data.entries@,
            0,
        ),
{
    let entries = &nut_info.nutritional_data.entries;
    let ghost es = entries@;
    let len = entries.len();
    let mut nut_result: Vec<NutritionalItem> = Vec::new();
    let mut i: usize = 0;
    while i < len
        invariant
            len == es.len(),
            es == entries@,
            i <= len,
            nut_result@.map_values(|it: NutritionalItem| nutritional_item_view(it)) + nutrition_groups(es, i as nat)
                == nutrition_groups(es, 0),
        decreases len - i,
    {
        proof {
            lemma_sub_end(es, (i + 1) as nat);
        }
        let parent = &entries[i];
        let mut subs: Vec<SubNutritionalItem> = Vec::new();
        let mut j = i + 1;
        while j < len && is_sub(&entries[j])
            invariant
                len == es.len(),
                es == entries@,
                i < len,
                i + 1 <= j <= len,
                forall|k: int| i + 1 <= k < j ==> is_sub_entry(#[trigger] es[k]),
                subs@.map_values(|s: SubNutritionalItem| (s.name, s.value)) == es.subrange(i + 1, j as int).map_values(
                    |x: ProductNutrition| (x.name, x.value_per100g),
                ),
            decreases len - j,
        {
            let current = &entries[j];
            let ghost old_subs = subs@;
            subs.push(SubNutritionalItem { name: current.name.clone(), value: current.value_per100g.clone() });
            proof {
                assert(es.subrange(i + 1, j + 1).map_values(|x: ProductNutrition| (x.name, x.value_per100g))
                    =~= es.subrange(i + 1, j as int).map_values(|x: ProductNutrition| (x.name, x.value_per100g))
                    .push((es[j as int].name, es[j as int].value_per100g)));
                assert(subs@.map_values(|s: SubNutritionalItem| (s.name, s.value)) =~= old_subs.map_values(
                    |s: SubNutritionalItem| (s.name, s.value),
                ).push((es[j as int].name, es[j as int].value_per100g)));
            }
            j = j + 1;
        }
        let next = j;
        proof {
            let e = sub_end(es, (i + 1) as nat);
            assert(e == j) by {
                if e < j {
                    assert(!is_sub_entry(es[e as int]));
                }
                if e > j {
                    assert(is_sub_entry(es[j as int]));
                }
            }
        }
        let ghost old_result = nut_result@;
        nut_result.push(NutritionalItem {
            name: parent.name.clone(),
            value: parent.value_per100g.clone(),
            sub_values: subs,
        });
        proof {
            assert(nut_result@.map_values(|it: NutritionalItem| nutritional_item_view(it)) =~= old_result.map_values(
                |it: NutritionalItem| nutritional_item_view(it),
            ).push(nutritional_item_view(nut_result@.last())));
            assert(nutrition_groups(es, i as nat) == seq![nutritional_item_view(nut_result@.last())]
                + nutrition_groups(es, next as nat));
            assert(old_result.map_values(|it: NutritionalItem| nutritional_item_view(it)).push(
                nutritional_item_view(nut_result@.last()),
            ) + nutrition_groups(es, next as nat) =~= old_result.map_values(
                |it: NutritionalItem| nutritional_item_view(it),
            ) + (seq![nutritional_item_view(nut_result@.last())] + nutrition_groups(es, next as nat)));
        }
        i = next;
    }
    proof {
        assert(nut_result@.map_values(|it: NutritionalItem| nutritional_item_view(it)) + nutrition_groups(es, i as nat)
            =~= nut_result@.map_values(|it: NutritionalItem| nutritional_item_view(it)));
    }
    nut_result
}

// ** Allergies **

/// The allergy pattern: `Bevat X` (contains) or `Bevatten X` (may contain).
pub open spec fn allergy_pattern() -> Seq<char> {
    r"[Bb]evat(ten)? (\w+)"@
}

/// The allergy tag of one match: group 2 names the allergen, group 1 marks "may contain".
pub open spec fn allergy_of(caps: Seq<Option<Seq<char>>>) -> Option<(Seq<char>, AllergyType)> {
    match cap(caps, 2) {
        Some(name) => Some(
            (name, if cap(caps, 1) is Some { AllergyType::MayContain } else { AllergyType::Contains }),
        ),
        None => None,
    }
}

/// The allergy tags of successive matches, skipping matches without a name.
pub open spec fn allergies_of(all: Seq<Seq<Option<Seq<char>>>>) -> Seq<(Seq<char>, AllergyType)>
    decreases all.len(),
{
    if all.len() == 0 {
        seq![]
    } else {
        let rest = allergies_of(all.drop_last());
        match allergy_of(all.last()) {
            Some(t) => rest.push(t),
            None => rest,
        }
    }
}

/// Parse the allergy text blob from Jumbo.
///
/// Simple list similar to `Bevat Selderij,Kan het volgende bevatten Eieren,etc`
pub fn parse_allergy_info(allergy_text: &str) -> (res: Vec<AllergyTags>)
    ensures
        res@.map_values(|t: AllergyTags| (t.name@, t.contains)) == allergies_of(
            regex_captures_all(allergy_pattern(), allergy_text@),
        ),
{
    let all = captures_all(r"[Bb]evat(ten)? (\w+)", allergy_text);
    let ghost all_view = all@.map_values(|c: Vec<Option<String>>| captures_view(c@));
    let mut res: Vec<AllergyTags> = Vec::new();
    let mut i: usize = 0;
    while i < all.len()
        invariant
            i <= all.len(),
            all_view == all@.map_values(|c: Vec<Option<String>>| captures_view(c@)),
            res@.map_values(|t: AllergyTags| (t.name@, t.contains)) == allergies_of(all_view.take(i as int)),
        decreases all.len() - i,
    {
        let caps = &all[i];
        proof {
            assert(all_view.take(i + 1).drop_last() =~= all_view.take(i as int));
            assert(all_view.take(i + 1).last() == captures_view(caps@));
        }
        let ghost old_res = res@;
        if caps.len() > 2 {
            proof {
                assert(captures_view(caps@)[2] == crate::patterns::opt_string_view(caps@[2]));
                assert(captures_view(caps@)[1] == crate::patterns::opt_string_view(caps@[1]));
            }
            match &caps[2] {
                Some(name) => {
                    let contains = match &caps[1] {
                        Some(_) => AllergyType::MayContain,
                        None => AllergyType::Contains,
                    };
                    res.push(AllergyTags { name: name.clone(), contains });
                    proof {
                        assert(res@.map_values(|t: AllergyTags| (t.name@, t.contains)) =~= old_res.map_values(
                            |t: AllergyTags| (t.name@, t.contains),
                        ).push((name@, contains)));
                    }
                },
                None => {},
            }
        }
        i = i + 1;
    }
    proof {
        assert(all_view.take(all.len() as int) =~= all_view);
    }
    res
}


// ** Sale information **

/// The index of the first element of `s` that satisfies `p`.
pub open spec fn first_match(s: Seq<Seq<char>>, p: spec_fn(Seq<char>) -> bool) -> Option<nat>
    decreases s.len(),
{
    if s.len() == 0 {
        None
    } else if p(s[0]) {
        Some(0)
    } else {
        match first_match(s.drop_first(), p) {
            Some(i) => Some(i + 1),
            None => None,
        }
    }
}

pub(crate) proof fn lemma_first_match_found(s: Seq<Seq<char>>, p: spec_fn(Seq<char>) -> bool, i: nat)
    requires
        i <= s.len(),
        forall|j: int| 0 <= j < i ==> !p(#[trigger] s[j]),
    ensures
        i < s.len() && p(s[i as int]) ==> first_match(s, p) == Some(i),
        i == s.len() ==> first_match(s, p) is None,
{
    lemma_first_match(s, p, i);
}

proof fn lemma_first_match(s: Seq<Seq<char>>, p: spec_fn(Seq<char>) -> bool, i: nat)
    requires
        i <= s.len(),
        forall|j: int| 0 <= j < i ==> !p(#[trigger] s[j]),
    ensures
        i < s.len() && p(s[i as int]) ==> first_match(s, p) == Some(i),
        i == s.len() ==> first_match(s, p) is None,
    decreases i,
{
    if i > 0 {
        assert forall|j: int| 0 <= j < i - 1 implies !p(#[trigger] s.drop_first()[j]) by {
            assert(s.drop_first()[j] == s[j + 1]);
        }
        lemma_first_match(s.drop_first(), p, (i - 1) as nat);
        assert(!p(s[0]));
        if i < s.len() {
            assert(s.drop_first()[i - 1] == s[i as int]);
        }
    }
}

/// Whether a tag reads as a sale label.
pub open spec fn is_sale_tag(t: Seq<char>) -> bool {
    spec_parse_sale_label(t) is Some
}

/// Whether a tag is neither about ordering online nor about delivery.
pub open spec fn is_plain_tag(t: Seq<char>) -> bool {
    !spec_contains_seq(t, "online"@) && !spec_contains_seq(t, "bezorg"@)
}

/// The sale information (label, additional labels, validity, sale type) that promotion tags give: the
/// first tag that reads as a sale label with its sale type; failing that, the first tag that is not about
/// ordering online or delivery, or else the first tag, without a sale type; `None` without tags. The
/// additional labels are all other tags, in order.
pub open spec fn spec_sale_info(tags: Seq<Seq<char>>, validity: SaleValidity) -> Option<
    (Seq<char>, Seq<Seq<char>>, SaleValidity, Option<SaleType>),
> {
    let with_label = |i: nat, sale_type: Option<SaleType>|
        (tags[i as int], tags.filter(|t: Seq<char>| t != tags[i as int]), validity, sale_type);
    match first_match(tags, |t: Seq<char>| is_sale_tag(t)) {
        Some(i) => Some(with_label(i, spec_parse_sale_label(tags[i as int]))),
        None => match first_match(tags, |t: Seq<char>| is_plain_tag(t)) {
            Some(i) => Some(with_label(i, None)),
            None => if tags.len() > 0 {
                Some(with_label(0, None))
            } else {
                None
            },
        },
    }
}

/// The view of a [SaleInformation].
pub open spec fn sale_info_view(s: SaleInformation) -> (Seq<char>, Seq<Seq<char>>, SaleValidity, Option<SaleType>) {
    (s.label@, s.additional_label@.map_values(|t: String| t@), s.sale_validity, s.sale_type)
}

/// The view of an optional [SaleInformation].
pub open spec fn opt_sale_info_view(s: Option<SaleInformation>) -> Option<
    (Seq<char>, Seq<Seq<char>>, SaleValidity, Option<SaleType>),
> {
    match s {
        Some(info) => Some(sale_info_view(info)),
        None => None,
    }
}

/// The views of strings.
pub open spec fn str_views(v: Seq<String>) -> Seq<Seq<char>> {
    v.map_values(|t: String| t@)
}

/// Whether a tag is plain, see [is_plain_tag].
fn tag_is_plain(tag: &String) -> (res: bool)
    ensures
        res == is_plain_tag(tag@),
{
    let v = chars_of(tag.as_str());
    let online = chars_of("online");
    let bezorg = chars_of("bezorg");
    !contains_seq(&v, &online) && !contains_seq(&v, &bezorg)
}

/// All tags but those equal to `label`, in order.
fn other_tags(tags: &Vec<String>, label: &String) -> (res: Vec<String>)
    ensures
        str_views(res@) == str_views(tags@).filter(|t: Seq<char>| t != label@),
{
    let ghost views = str_views(tags@);
    let ghost keep = |t: Seq<char>| t != label@;
    let mut res: Vec<String> = Vec::new();
    let mut i: usize = 0;
    while i < tags.len()
        invariant
            i <= tags.len(),
            views == str_views(tags@),
            keep == (|t: Seq<char>| t != label@),
            str_views(res@) == views.take(i as int).filter(keep),
        decreases tags.len() - i,
    {
        let ghost prev = views.take(i as int).filter(keep);
        proof {
            reveal(Seq::filter);
            assert(views.take(i + 1).drop_last() =~= views.take(i as int));
            assert(views.take(i + 1).last() == tags@[i as int]@);
        }
        if tags[i] != *label {
            res.push(tags[i].clone());
            proof {
                assert(keep(tags@[i as int]@));
                assert(views.take(i + 1).filter(keep) == prev.push(tags@[i as int]@));
                assert(str_views(res@) =~= prev.push(tags@[i as int]@));
            }
        } else {
            proof {
                assert(!keep(tags@[i as int]@));
                assert(views.take(i + 1).filter(keep) == prev);
            }
        }
        i = i + 1;
    }
    proof {
        assert(views.take(tags.len() as int) =~= views);
    }
    res
}

/// Parse promotion tags to a [SaleInformation]: the first tag that reads as a sale label is the label;
/// failing that a best effort is made, avoiding the `Online only` and `Voor bezorging` tags.
pub fn parse_promotion_to_sale_info(tags: &Vec<String>, sale_validity: SaleValidity) -> (res: Option<SaleInformation>)
    ensures
        opt_sale_info_view(res) == spec_sale_info(str_views(tags@), sale_validity),
{
    let ghost views = str_views(tags@);
    let ghost sale_p = |t: Seq<char>| is_sale_tag(t);
    let ghost plain_p = |t: Seq<char>| is_plain_tag(t);
    let mut i: usize = 0;
    let mut found: Option<(usize, SaleType)> = None;
    while i < tags.len() && found.is_none()
        invariant
            i <= tags.len(),
            views == str_views(tags@),
            sale_p == (|t: Seq<char>| is_sale_tag(t)),
            found is None ==> forall|j: int| 0 <= j < i ==> !sale_p(#[trigger] views[j]),
            found matches Some((k, st)) ==> k < tags.len() && first_match(views, sale_p) == Some(k as nat)
                && spec_parse_sale_label(views[k as int]) == Some(st),
        decreases tags.len() - i,
    {
        let parsed = parse_sale_label(tags[i].as_str());
        proof {
            assert(views[i as int] == tags@[i as int]@);
        }
        match parsed {
            Some(st) => {
                proof {
                    lemma_first_match(views, sale_p, i as nat);
                }
                found = Some((i, st));
            },
            None => {},
        }
        i = i + 1;
    }
    let (idx, sale_type): (usize, Option<SaleType>) = match found {
        Some((k, st)) => (k, Some(st)),
        None => {
            proof {
                lemma_first_match(views, sale_p, tags.len() as nat);
            }
            let mut j: usize = 0;
            let mut plain: Option<usize> = None;
            while j < tags.len() && plain.is_none()
                invariant
                    j <= tags.len(),
                    views == str_views(tags@),
                    plain_p == (|t: Seq<char>| is_plain_tag(t)),
                    plain is None ==> forall|q: int| 0 <= q < j ==> !plain_p(#[trigger] views[q]),
                    plain matches Some(k) ==> k < tags.len() && first_match(views, plain_p) == Some(k as nat),
                decreases tags.len() - j,
            {
                proof {
                    assert(views[j as int] == tags@[j as int]@);
                }
                if tag_is_plain(&tags[j]) {
                    proof {
                        lemma_first_match(views, plain_p, j as nat);
                    }
                    plain = Some(j);
                }
                j = j + 1;
            }
            match plain {
                Some(k) => (k, None),
                None => {
                    proof {
                        lemma_first_match(views, plain_p, tags.len() as nat);
                    }
                    if tags.len() == 0 {
                        return None;
                    }
                    (0, None)
                },
            }
        },
    };
    let label = tags[idx].clone();
    let additional_label = other_tags(tags, &label);
    proof {
        assert(views[idx as int] == label@);
    }
    Some(SaleInformation { label, additional_label, sale_validity, sale_type })
}

} // verus!
