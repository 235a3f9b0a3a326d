use vstd::prelude::*;

use crate::dates::{
    date_time_timestamp, day_number, has_iso_week_monday, is_valid_date, iso_week, iso_week_monday,
    iso_week_monday_date, iso_week_of_day,
};
use crate::dates::now_timestamp;
use crate::picnic::images::{image_url, spec_image_url};
use crate::picnic::models::{
    CalendarDate, Decorator, Explanation, ImageSize, SingleArticle,
    UnavailableReason as PicnicUnavailableReason,
};
use crate::providers::common_bridge::{
    day_seconds, derive_unit_price, get_guessed_sale_validity, max_timestamp, min_timestamp,
    parse_quantity, parse_sale_label, quantity_view, spec_derive_unit_price, spec_parse_quantity,
    spec_parse_sale_label, week_start,
};
use crate::providers::jumbo_bridge::opt_sale_info_view;
use crate::providers::jumbo_products::unit_price_view;
use crate::providers::models::{
    FreshLabel, PrepTime, PriceInfo, Provider, SaleInformation, SaleType, SaleValidity,
    UnavailableItem, UnavailableReason, Unit, UnitQuantity, WggDecorator, WggSearchProduct,
};
use crate::providers::picnic_bridge::{
    parse_days_fresh, parse_prep_time, parse_unit_price, spec_parse_days_fresh, spec_parse_prep_time,
    spec_parse_unit_price,
};
use crate::text::{chars_of, eq_lit};

verus! {

// ** Sale decorators **

/// The ISO week number of a valid date.
pub open spec fn week_of(date: CalendarDate) -> u32 {
    iso_week_of_day(date.year as int, day_number(date)).1 as u32
}

/// Whether a validity label can be read: a date that is no calendar date is never read, and of a
/// calendar date the Monday of its ISO week number in its calendar year must exist. (For January 1st to
/// 3rd that fall in week 53 of the previous year, in a year of 52 weeks, it does not.)
pub open spec fn validity_label_supported(date: CalendarDate) -> bool {
    is_valid_date(date) ==> has_iso_week_monday(date.year as int, week_of(date) as int)
}

/// The sale validity of a validity label: from the Monday (00:00:00 UTC) of the ISO week number of the
/// date, counted in the date's calendar year, until the date at 23:59:59 UTC.
pub open spec fn spec_label_validity(date: CalendarDate) -> Option<SaleValidity> {
    if is_valid_date(date) {
        Some(
            SaleValidity {
                valid_from: (iso_week_monday(date.year as int, week_of(date) as int) * 86400) as i64,
                valid_until: (day_number(date) * 86400 + 86399) as i64,
            },
        )
    } else {
        None
    }
}

/// The sale validity of a validity label, see [spec_label_validity].
pub fn label_validity(date: CalendarDate) -> (res: Option<SaleValidity>)
    requires
        validity_label_supported(date),
    ensures
        res == spec_label_validity(date),
{
    let valid_until = match date_time_timestamp(date, 23, 59, 59) {
        Some(t) => t,
        None => return None,
    };
    let week = match iso_week(date) {
        Some((_, w)) => w,
        None => return None,
    };
    let monday = match iso_week_monday_date(date.year, week) {
        Some(d) => d,
        None => return None,
    };
    let valid_from = match date_time_timestamp(monday, 0, 0, 0) {
        Some(t) => t,
        None => return None,
    };
    Some(SaleValidity { valid_from, valid_until })
}

/// Whether every validity label among `ds` can be read.
pub open spec fn labels_supported(ds: Seq<Decorator>) -> bool {
    forall|i: int|
        0 <= i < ds.len() ==> (#[trigger] ds[i] matches Decorator::ValidityLabel { valid_until }
            ==> validity_label_supported(valid_until))
}

/// The sale label and sale validity of decorators: the text of the last promo decorator and the
/// validity of the last validity label (one that is no calendar date leaves the validity as it was).
pub open spec fn sale_decorators(ds: Seq<Decorator>) -> (Option<Seq<char>>, Option<SaleValidity>)
    decreases ds.len(),
{
    if ds.len() == 0 {
        (None, None)
    } else {
        let (l, v) = sale_decorators(ds.drop_last());
        match ds.last() {
            Decorator::Promo { text } => (Some(text@), v),
            Decorator::ValidityLabel { valid_until } => (
                l,
                match spec_label_validity(valid_until) {
                    Some(x) => Some(x),
                    None => v,
                },
            ),
            _ => (l, v),
        }
    }
}

/// The view of an optional string.
pub open spec fn opt_str_view(s: Option<String>) -> Option<Seq<char>> {
    match s {
        Some(t) => Some(t@),
        None => None,
    }
}

/// Read the sale label and the sale validity from decorators, see [sale_decorators].
pub fn parse_decorators_for_sale(decorators: &Vec<Decorator>) -> (res: (Option<String>, Option<SaleValidity>))
    requires
        labels_supported(decorators@),
    ensures
        (opt_str_view(res.0), res.1) == sale_decorators(decorators@),
{
    let mut sale_label: Option<String> = None;
    let mut sale_validity: Option<SaleValidity> = None;
    let mut i: usize = 0;
    while i < decorators.len()
        invariant
            i <= decorators.len(),
            labels_supported(decorators@),
            (opt_str_view(sale_label), sale_validity) == sale_decorators(decorators@.take(i as int)),
        decreases decorators.len() - i,
    {
        proof {
            assert(decorators@.take(i + 1).drop_last() =~= decorators@.take(i as int));
            assert(decorators@.take(i + 1).last() == decorators@[i as int]);
        }
        match &decorators[i] {
            Decorator::Promo { text } => {
                sale_label = Some(text.clone());
            },
            Decorator::ValidityLabel { valid_until } => {
                proof {
                    assert(decorators@[i as int] matches Decorator::ValidityLabel { valid_until });
                }
                match label_validity(*valid_until) {
                    Some(v) => {
                        sale_validity = Some(v);
                    },
                    None => {},
                }
            },
            _ => {},
        }
        i = i + 1;
    }
    proof {
        assert(decorators@.take(decorators.len() as int) =~= decorators@);
    }
    (sale_label, sale_validity)
}

// ** Fresh labels and prices **

/// Whether decorators hold a fresh label.
pub open spec fn has_fresh(ds: Seq<WggDecorator>) -> bool {
    exists|i: int| 0 <= i < ds.len() && #[trigger] ds[i] is FreshLabel
}

/// The fresh label decorator that one decorator adds to `result`: a fresh label whose period reads, when
/// `result` has no fresh label yet.
pub open spec fn fresh_step(result: Seq<WggDecorator>, d: Decorator) -> Seq<WggDecorator> {
    match d {
        Decorator::FreshLabel { period } => if !has_fresh(result) {
            match spec_parse_days_fresh(period@) {
                Some(days) => result.push(WggDecorator::FreshLabel(FreshLabel { days_fresh: days as u32 })),
                None => result,
            }
        } else {
            result
        },
        _ => result,
    }
}

/// The fresh label decorators that decorators give, added to `result` one decorator at a time.
pub open spec fn fresh_decorators(result: Seq<WggDecorator>, ds: Seq<Decorator>) -> Seq<WggDecorator>
    decreases ds.len(),
{
    if ds.len() == 0 {
        result
    } else {
        fresh_step(fresh_decorators(result, ds.drop_last()), ds.last())
    }
}

/// The display price after decorators: that of the last price decorator, else `price`.
pub open spec fn last_price(ds: Seq<Decorator>, price: u32) -> u32
    decreases ds.len(),
{
    if ds.len() == 0 {
        price
    } else {
        match ds.last() {
            Decorator::Price { display_price } => display_price,
            _ => last_price(ds.drop_last(), price),
        }
    }
}

/// Whether `ds` holds a fresh label.
fn holds_fresh(ds: &Vec<WggDecorator>) -> (res: bool)
    ensures
        res == has_fresh(ds@),
{
    let mut i: usize = 0;
    while i < ds.len()
        invariant
            i <= ds.len(),
            forall|j: int| 0 <= j < i ==> !(#[trigger] ds@[j] is FreshLabel),
        decreases ds.len() - i,
    {
        if let WggDecorator::FreshLabel(_) = &ds[i] {
            proof {
                assert(ds@[i as int] is FreshLabel);
            }
            return true;
        }
        i = i + 1;
    }
    false
}

/// The fresh-label part of [parse_decorator] for one `FreshLabel { period }` decorator.
fn push_fresh(period: &String, result: &mut Vec<WggDecorator>)
    ensures
        final(result)@ == fresh_step(old(result)@, Decorator::FreshLabel { period: *period }),
{
    if !holds_fresh(result) {
        match parse_days_fresh(period.as_str()) {
            Some(days_fresh) => {
                result.push(WggDecorator::FreshLabel(FreshLabel { days_fresh }));
            },
            None => {},
        }
    }
}


// ** Search items **

/// Picnic's reason of unavailability in our terms.
pub open spec fn picnic_unavailable_reason(r: PicnicUnavailableReason) -> UnavailableReason {
    match r {
        PicnicUnavailableReason::OutOfAssortment => UnavailableReason::OutOfAssortment,
        PicnicUnavailableReason::OutOfSeason => UnavailableReason::OutOfSeason,
        PicnicUnavailableReason::TemporarilyUnavailable => UnavailableReason::TemporarilyUnavailable,
        _ => UnavailableReason::Unknown,
    }
}

/// The best guess of a sale's validity at time `now`: the week of `now`, see
/// [get_guessed_sale_validity].
pub open spec fn guessed_validity(now: int) -> SaleValidity {
    SaleValidity {
        valid_from: week_start(now) as i64,
        valid_until: (week_start(now) + 7 * day_seconds() - 1) as i64,
    }
}

/// The sale information of a Picnic search item: its sale label (unless it is `Receptkorting`, a
/// discount on recipes), without additional labels, valid as its validity label says or else for the
/// week of `now`.
pub open spec fn spec_item_sale(label: Option<Seq<char>>, validity: Option<SaleValidity>, now: int) -> Option<
    (Seq<char>, Seq<Seq<char>>, SaleValidity, Option<SaleType>),
> {
    match label {
        Some(l) => if l == "Receptkorting"@ {
            None
        } else {
            Some(
                (
                    l,
                    seq![],
                    match validity {
                        Some(v) => v,
                        None => guessed_validity(now),
                    },
                    spec_parse_sale_label(l),
                ),
            )
        },
        None => None,
    }
}

/// The unit quantity of a unit text: one piece when it does not read as a quantity.
pub open spec fn spec_picnic_quantity(s: Seq<char>) -> (Unit, (nat, nat)) {
    match spec_parse_quantity(s) {
        Some(v) => v,
        None => quantity_view(UnitQuantity::spec_default()),
    }
}

/// The preparation time decorator of a unit text that does not read as a quantity, such as
/// `4-6 pers | 30 mins`.
pub open spec fn spec_prep_decorators(s: Seq<char>) -> Seq<WggDecorator> {
    match spec_parse_quantity(s) {
        Some(_) => seq![],
        None => match spec_parse_prep_time(s) {
            Some(m) => seq![WggDecorator::PrepTime(PrepTime { time_minutes: m as u32 })],
            None => seq![],
        },
    }
}

/// The unit price of a Picnic article: the listed one when it reads, else the one derived from the
/// quantity and the display price.
pub open spec fn spec_picnic_unit_price(text: Option<String>, q: (Unit, (nat, nat)), display: nat) -> Option<
    (Unit, nat),
> {
    match text {
        Some(s) => match spec_parse_unit_price(s@) {
            Some(p) => Some(p),
            None => Some(spec_derive_unit_price(q, display)),
        },
        None => Some(spec_derive_unit_price(q, display)),
    }
}

/// Whether `rs` are the search items of the articles `arts`, at time `now`.
pub open spec fn replacements_of(rs: Seq<WggSearchProduct>, arts: Seq<SingleArticle>, now: int) -> bool
    decreases arts,
{
    if arts.len() == 0 {
        rs.len() == 0
    } else {
        &&& rs.len() == arts.len()
        &&& replacements_of(rs.drop_last(), arts.drop_last(), now)
        &&& picnic_search_item_of(rs.last(), arts.last(), now)
    }
}

/// Whether `u` is the unavailability that decorators give: that of the last `Unavailable` decorator
/// (its reason, its explanations and its replacements as search items), none without one.
pub open spec fn unavailable_of_decorators(u: Option<UnavailableItem>, ds: Seq<Decorator>, now: int) -> bool
    decreases ds,
{
    if ds.len() == 0 {
        u is None
    } else {
        match ds.last() {
            Decorator::Unavailable { reason, replacements, explanation } => {
                &&& u is Some
                &&& u.unwrap().reason == picnic_unavailable_reason(reason)
                &&& u.unwrap().explanation_short == Some(explanation.short_explanation)
                &&& u.unwrap().explanation_long == Some(explanation.long_explanation)
                &&& replacements_of(u.unwrap().replacements@, replacements@, now)
            },
            _ => unavailable_of_decorators(u, ds.drop_last(), now),
        }
    }
}

/// An unavailable Picnic article keeps Picnic's reason: out of assortment, out of season and temporarily
/// unavailable are reported as themselves, and any other reason as unknown.
pub proof fn lemma_picnic_unavailable_reason(u: Option<UnavailableItem>, ds: Seq<Decorator>, now: int, reason: PicnicUnavailableReason)
    requires
        unavailable_of_decorators(u, ds, now),
        ds.len() > 0,
        ds.last() matches Decorator::Unavailable { reason: r, .. } && r == reason,
    ensures
        u is Some,
        (reason == PicnicUnavailableReason::OutOfAssortment) <==> (u.unwrap().reason
            == UnavailableReason::OutOfAssortment),
        (reason == PicnicUnavailableReason::OutOfSeason) <==> (u.unwrap().reason == UnavailableReason::OutOfSeason),
        (reason == PicnicUnavailableReason::TemporarilyUnavailable) <==> (u.unwrap().reason
            == UnavailableReason::TemporarilyUnavailable),
        (reason != PicnicUnavailableReason::OutOfAssortment && reason != PicnicUnavailableReason::OutOfSeason
            && reason != PicnicUnavailableReason::TemporarilyUnavailable) <==> (u.unwrap().reason
            == UnavailableReason::Unknown),
{
}

/// Whether `r` is the search item of Picnic article `a`, at time `now` (which only matters for a sale
/// without a validity label).
pub open spec fn picnic_search_item_of(r: WggSearchProduct, a: SingleArticle, now: int) -> bool
    decreases a,
{
    let (label, validity) = sale_decorators(a.decorators@);
    let display = last_price(a.decorators@, a.display_price);
    let quantity = spec_picnic_quantity(a.unit_quantity@);
    &&& r.id == a.id
    &&& r.name == a.name
    &&& r.image_url is Some
    &&& r.image_url.unwrap()@ == spec_image_url(a.image_id@, ImageSize::Medium)
    &&& r.price_info.original_price == a.display_price
    &&& r.price_info.display_price == display
    &&& quantity_view(r.unit_quantity) == quantity
    &&& unit_price_view(r.price_info.unit_price) == spec_picnic_unit_price(
        a.unit_quantity_sub,
        quantity,
        display as nat,
    )
    &&& opt_sale_info_view(r.sale_information) == spec_item_sale(label, validity, now)
    &&& r.decorators@ == fresh_decorators(seq![], a.decorators@) + spec_prep_decorators(a.unit_quantity@)
    &&& unavailable_of_decorators(r.unavailable_details, a.decorators@, now)
    &&& r.provider == Provider::Picnic
}

/// Whether every validity label of an article, of its replacements and of theirs, can be read.
pub open spec fn article_supported(a: SingleArticle) -> bool
    decreases a,
{
    decorators_supported(a.decorators@)
}

/// Whether every validity label among decorators and their replacements can be read.
pub open spec fn decorators_supported(ds: Seq<Decorator>) -> bool
    decreases ds,
{
    if ds.len() == 0 {
        true
    } else {
        &&& decorators_supported(ds.drop_last())
        &&& match ds.last() {
            Decorator::ValidityLabel { valid_until } => validity_label_supported(valid_until),
            Decorator::Unavailable { replacements, .. } => articles_supported(replacements@),
            _ => true,
        }
    }
}

/// Whether every validity label of articles and their replacements can be read.
pub open spec fn articles_supported(arts: Seq<SingleArticle>) -> bool
    decreases arts,
{
    if arts.len() == 0 {
        true
    } else {
        articles_supported(arts.drop_last()) && article_supported(arts.last())
    }
}


/// What one decorator needs to be parsed on its own: the replacements of an unavailable article are
/// supported. A validity label is not read here, so any one will do.
pub open spec fn decorator_supported(d: Decorator) -> bool {
    match d {
        Decorator::Unavailable { replacements, .. } => articles_supported(replacements@),
        _ => true,
    }
}

pub(crate) proof fn lemma_decorators_supported(ds: Seq<Decorator>)
    requires
        decorators_supported(ds),
    ensures
        forall|i: int| 0 <= i < ds.len() ==> decorator_supported(#[trigger] ds[i]),
        labels_supported(ds),
    decreases ds.len(),
{
    if ds.len() > 0 {
        lemma_decorators_supported(ds.drop_last());
        assert forall|i: int| 0 <= i < ds.len() implies decorator_supported(#[trigger] ds[i]) by {
            if i < ds.len() - 1 {
                assert(ds.drop_last()[i] == ds[i]);
            }
        }
        assert forall|i: int|
            0 <= i < ds.len() implies (#[trigger] ds[i] matches Decorator::ValidityLabel { valid_until }
            ==> validity_label_supported(valid_until)) by {
            if i < ds.len() - 1 {
                assert(ds.drop_last()[i] == ds[i]);
            }
        }
    }
}

proof fn lemma_articles_supported(arts: Seq<SingleArticle>)
    requires
        articles_supported(arts),
    ensures
        forall|i: int| 0 <= i < arts.len() ==> article_supported(#[trigger] arts[i]),
    decreases arts.len(),
{
    if arts.len() > 0 {
        lemma_articles_supported(arts.drop_last());
        assert forall|i: int| 0 <= i < arts.len() implies article_supported(#[trigger] arts[i]) by {
            if i < arts.len() - 1 {
                assert(arts.drop_last()[i] == arts[i]);
            }
        }
    }
}

/// The search items of replacement articles, at time `now`.
fn parse_replacements(reps: Vec<SingleArticle>, now: i64) -> (res: Vec<WggSearchProduct>)
    requires
        articles_supported(reps@),
        min_timestamp() <= now <= max_timestamp(),
    ensures
        replacements_of(res@, reps@, now as int),
    decreases reps,
{
    let ghost arts = reps@;
    proof {
        lemma_articles_supported(arts);
    }
    let mut rest = reps;
    let mut res: Vec<WggSearchProduct> = Vec::new();
    let mut k: usize = 0;
    proof {
        assert(arts.skip(0) =~= arts);
        assert(arts.len() == rest.len());
    }
    while rest.len() > 0
        invariant
            k + rest.len() == arts.len(),
            arts.len() <= usize::MAX,
            arts == reps@,
            rest@ == arts.skip(k as int),
            forall|i: int| 0 <= i < arts.len() ==> article_supported(#[trigger] arts[i]),
            min_timestamp() <= now <= max_timestamp(),
            replacements_of(res@, arts.take(k as int), now as int),
        decreases rest.len(),
    {
        let article = rest.remove(0);
        proof {
            assert(rest@ =~= arts.skip(k + 1));
            assert(article == arts[k as int]);
            assert(decreases_to!(reps => reps@));
            assert(decreases_to!(reps@ => reps@[k as int]));
        }
        let item = parse_picnic_item_to_search_item_at(article, now);
        let ghost prev = res@;
        res.push(item);
        proof {
            assert(arts.take(k + 1).drop_last() =~= arts.take(k as int));
            assert(arts.take(k + 1).last() == arts[k as int]);
            assert(res@.drop_last() =~= prev);
            assert(res@.last() == item);
        }
        k = k + 1;
    }
    proof {
        assert(arts.take(k as int) =~= arts);
    }
    res
}

/// Parse one Picnic decorator into the search item being built, at time `now`: a fresh label (when
/// there is none yet), the display price, or the unavailability with its replacements.
pub fn parse_decorator_at(
    decorator: Decorator,
    result: &mut Vec<WggDecorator>,
    set_display_price: &mut u32,
    set_unavailable: &mut Option<UnavailableItem>,
    now: i64,
)
    requires
        decorator_supported(decorator),
        min_timestamp() <= now <= max_timestamp(),
    ensures
        final(result)@ == fresh_step(old(result)@, decorator),
        *final(set_display_price) == (match decorator {
            Decorator::Price { display_price } => display_price,
            _ => *old(set_display_price),
        }),
        match decorator {
            Decorator::Unavailable { reason, replacements, explanation } => {
                &&& *final(set_unavailable) is Some
                &&& (*final(set_unavailable)).unwrap().reason == picnic_unavailable_reason(reason)
                &&& (*final(set_unavailable)).unwrap().explanation_short == Some(explanation.short_explanation)
                &&& (*final(set_unavailable)).unwrap().explanation_long == Some(explanation.long_explanation)
                &&& replacements_of((*final(set_unavailable)).unwrap().replacements@, replacements@, now as int)
            },
            _ => *final(set_unavailable) == *old(set_unavailable),
        },
    decreases decorator,
{
    let ghost d = decorator;
    match decorator {
        Decorator::FreshLabel { period } => {
            push_fresh(&period, result);
        },
        Decorator::Price { display_price } => {
            *set_display_price = display_price;
        },
        Decorator::Unavailable { reason, replacements, explanation } => {
            let r = match reason {
                PicnicUnavailableReason::OutOfAssortment => UnavailableReason::OutOfAssortment,
                PicnicUnavailableReason::OutOfSeason => UnavailableReason::OutOfSeason,
                PicnicUnavailableReason::TemporarilyUnavailable => UnavailableReason::TemporarilyUnavailable,
                _ => UnavailableReason::Unknown,
            };
            proof {
                assert(decreases_to!(d => replacements));
            }
            let items = parse_replacements(replacements, now);
            *set_unavailable = Some(
                UnavailableItem {
                    reason: r,
                    explanation_short: Some(explanation.short_explanation),
                    explanation_long: Some(explanation.long_explanation),
                    replacements: items,
                },
            );
        },
        _ => {},
    }
}

/// Parse a Picnic [SingleArticle] to our normalised [WggSearchProduct], at time `now` (which only
/// matters for a sale without a validity label). Picnic's `display_price` is our `original_price`; a
/// price decorator gives the display price.
pub fn parse_picnic_item_to_search_item_at(article: SingleArticle, now: i64) -> (res: WggSearchProduct)
    requires
        article_supported(article),
        min_timestamp() <= now <= max_timestamp(),
    ensures
        picnic_search_item_of(res, article, now as int),
    decreases article,
{
    let ghost a = article;
    let ghost ds = article.decorators@;
    proof {
        lemma_decorators_supported(ds);
    }
    // Sale data
    let (sale_label, sale_validity) = parse_decorators_for_sale(&article.decorators);
    let sale_information = match sale_label {
        Some(label) => {
            let label_chars = chars_of(label.as_str());
            if eq_lit(&label_chars, "Receptkorting") {
                None
            } else {
                let sale_type = parse_sale_label(label.as_str());
                let validity = match sale_validity {
                    Some(v) => v,
                    None => get_guessed_sale_validity(now),
                };
                let info = SaleInformation {
                    label,
                    additional_label: Vec::new(),
                    sale_validity: validity,
                    sale_type,
                };
                proof {
                    assert(info.additional_label@.map_values(|t: String| t@) =~= Seq::<Seq<char>>::empty());
                }
                Some(info)
            }
        },
        None => None,
    };
    // Remaining decorators
    let mut decorators: Vec<WggDecorator> = Vec::new();
    let mut display_price: u32 = article.display_price;
    let mut unavailable_details: Option<UnavailableItem> = None;
    let mut rest = article.decorators;
    let mut k: usize = 0;
    proof {
        assert(ds.skip(0) =~= ds);
        assert(ds.take(0) =~= Seq::<Decorator>::empty());
        assert(ds.len() == rest.len());
    }
    while rest.len() > 0
        invariant
            k + rest.len() == ds.len(),
            ds.len() <= usize::MAX,
            ds == a.decorators@,
            a == article,
            rest@ == ds.skip(k as int),
            forall|i: int| 0 <= i < ds.len() ==> decorator_supported(#[trigger] ds[i]),
            min_timestamp() <= now <= max_timestamp(),
            decorators@ == fresh_decorators(seq![], ds.take(k as int)),
            display_price == last_price(ds.take(k as int), a.display_price),
            unavailable_of_decorators(unavailable_details, ds.take(k as int), now as int),
        decreases rest.len(),
    {
        let dec = rest.remove(0);
        proof {
            assert(rest@ =~= ds.skip(k + 1));
            assert(dec == ds[k as int]);
            assert(decreases_to!(a => a.decorators));
            assert(decreases_to!(a.decorators => a.decorators@));
            assert(decreases_to!(a.decorators@ => a.decorators@[k as int]));
            assert(decreases_to!(article => dec));
            assert(ds.take(k + 1).drop_last() =~= ds.take(k as int));
            assert(ds.take(k + 1).last() == ds[k as int]);
        }
        parse_decorator_at(dec, &mut decorators, &mut display_price, &mut unavailable_details, now);
        k = k + 1;
    }
    proof {
        assert(ds.take(k as int) =~= ds);
    }
    // Unit quantity, or else the preparation time
    let ghost fresh = decorators@;
    let unit_quantity = match parse_quantity(article.unit_quantity.as_str()) {
        Some(q) => q,
        None => {
            match parse_prep_time(article.unit_quantity.as_str()) {
                Some(minutes) => decorators.push(WggDecorator::PrepTime(PrepTime { time_minutes: minutes })),
                None => {},
            }
            UnitQuantity::default()
        },
    };
    proof {
        assert(decorators@ =~= fresh + spec_prep_decorators(a.unit_quantity@));
    }
    // Unit price
    let unit_price = match &article.unit_quantity_sub {
        Some(text) => match parse_unit_price(text.as_str()) {
            Some(p) => Some(p),
            None => derive_unit_price(&unit_quantity, display_price),
        },
        None => derive_unit_price(&unit_quantity, display_price),
    };
    let image = image_url(article.image_id.as_str(), ImageSize::Medium);
    WggSearchProduct {
        id: article.id,
        name: article.name,
        price_info: PriceInfo { display_price, original_price: article.display_price, unit_price },
        unit_quantity,
        unavailable_details,
        image_url: Some(image),
        decorators,
        sale_information,
        provider: Provider::Picnic,
    }
}


/// Parse a Picnic [SingleArticle] to our normalised [WggSearchProduct], reading the clock for a sale
/// without a validity label.
pub fn parse_picnic_item_to_search_item(article: SingleArticle) -> (res: WggSearchProduct)
    requires
        article_supported(article),
    ensures
        exists|now: int|
            min_timestamp() <= now <= max_timestamp() && picnic_search_item_of(res, article, now),
{
    let now = now_timestamp();
    parse_picnic_item_to_search_item_at(article, now)
}

/// Parse one Picnic decorator into the search item being built, reading the clock for the replacements
/// of an unavailable article. A fresh label adds a label when none is there yet, a price sets the
/// display price, an unavailable decorator sets the unavailability; any other decorator, a validity
/// label among them, changes nothing.
pub fn parse_decorator(
    decorator: Decorator,
    result: &mut Vec<WggDecorator>,
    set_display_price: &mut u32,
    set_unavailable: &mut Option<UnavailableItem>,
)
    requires
        decorator_supported(decorator),
    ensures
        final(result)@ == fresh_step(old(result)@, decorator),
        *final(set_display_price) == (match decorator {
            Decorator::Price { display_price } => display_price,
            _ => *old(set_display_price),
        }),
        match decorator {
            Decorator::Unavailable { reason, replacements, explanation } => {
                &&& *final(set_unavailable) is Some
                &&& (*final(set_unavailable)).unwrap().reason == picnic_unavailable_reason(reason)
                &&& (*final(set_unavailable)).unwrap().explanation_short == Some(explanation.short_explanation)
                &&& (*final(set_unavailable)).unwrap().explanation_long == Some(explanation.long_explanation)
                &&& exists|now: int|
                    min_timestamp() <= now <= max_timestamp() && replacements_of(
                        (*final(set_unavailable)).unwrap().replacements@,
                        replacements@,
                        now,
                    )
            },
            _ => *final(set_unavailable) == *old(set_unavailable),
        },
{
    let now = now_timestamp();
    parse_decorator_at(decorator, result, set_display_price, set_unavailable, now);
}

// ** Which articles can be parsed **

/// Whether a validity label can be read, see [validity_label_supported].
pub fn validity_label_is_supported(date: CalendarDate) -> (res: bool)
    ensures
        res == validity_label_supported(date),
{
    match iso_week(date) {
        Some((_, week)) => iso_week_monday_date(date.year, week).is_some(),
        None => true,
    }
}

/// Whether every validity label of an article, of its replacements and of theirs, can be read.
pub fn picnic_article_supported(article: &SingleArticle) -> (res: bool)
    ensures
        res == article_supported(*article),
    decreases article, 1nat,
{
    proof {
        assert(decreases_to!(article => article.decorators));
    }
    picnic_decorators_supported(&article.decorators)
}

/// Whether every validity label among decorators and their replacements can be read.
pub fn picnic_decorators_supported(ds: &Vec<Decorator>) -> (res: bool)
    ensures
        res == decorators_supported(ds@),
    decreases ds, 1nat,
{
    let mut i: usize = 0;
    while i < ds.len()
        invariant
            i <= ds.len(),
            decorators_supported(ds@.take(i as int)),
        decreases ds.len() - i,
    {
        proof {
            assert(ds@.take(i + 1).drop_last() =~= ds@.take(i as int));
            assert(ds@.take(i + 1).last() == ds@[i as int]);
        }
        let ok = match &ds[i] {
            Decorator::ValidityLabel { valid_until } => validity_label_is_supported(*valid_until),
            Decorator::Unavailable { replacements, .. } => {
                proof {
                    assert(decreases_to!(ds => ds@));
                    assert(decreases_to!(ds@ => ds@[i as int]));
                    assert(decreases_to!(ds => replacements));
                }
                picnic_articles_supported(replacements)
            },
            _ => true,
        };
        if !ok {
            proof {
                lemma_supported_prefix(ds@, (i + 1) as nat);
            }
            return false;
        }
        i = i + 1;
    }
    proof {
        assert(ds@.take(ds.len() as int) =~= ds@);
    }
    true
}

proof fn lemma_supported_prefix(ds: Seq<Decorator>, n: nat)
    requires
        n <= ds.len(),
        !decorators_supported(ds.take(n as int)),
    ensures
        !decorators_supported(ds),
    decreases ds.len() - n,
{
    if n < ds.len() {
        assert(ds.take(n as int + 1).drop_last() =~= ds.take(n as int));
        lemma_supported_prefix(ds, n + 1);
    } else {
        assert(ds.take(n as int) =~= ds);
    }
}

/// Whether every validity label of articles and their replacements can be read.
fn picnic_articles_supported(arts: &Vec<SingleArticle>) -> (res: bool)
    ensures
        res == articles_supported(arts@),
    decreases arts, 0nat,
{
    let mut i: usize = 0;
    while i < arts.len()
        invariant
            i <= arts.len(),
            articles_supported(arts@.take(i as int)),
        decreases arts.len() - i,
    {
        proof {
            assert(arts@.take(i + 1).drop_last() =~= arts@.take(i as int));
            assert(arts@.take(i + 1).last() == arts@[i as int]);
            assert(decreases_to!(arts => arts@));
            assert(decreases_to!(arts@ => arts@[i as int]));
        }
        if !picnic_article_supported(&arts[i]) {
            proof {
                lemma_articles_prefix(arts@, (i + 1) as nat);
            }
            return false;
        }
        i = i + 1;
    }
    proof {
        assert(arts@.take(arts.len() as int) =~= arts@);
    }
    true
}

proof fn lemma_articles_prefix(arts: Seq<SingleArticle>, n: nat)
    requires
        n <= arts.len(),
        !articles_supported(arts.take(n as int)),
    ensures
        !articles_supported(arts),
    decreases arts.len() - n,
{
    if n < arts.len() {
        assert(arts.take(n as int + 1).drop_last() =~= arts.take(n as int));
        lemma_articles_prefix(arts, n + 1);
    } else {
        assert(arts.take(n as int) =~= arts);
    }
}

} // verus!
