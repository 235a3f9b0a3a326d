use vstd::prelude::*;

use crate::numbers::{decimal_digits, decimal_string};
use crate::patterns::{
    captures, captures_view, first_matching_pattern, regex_captures, regex_set_first_match, strings_view,
};
use crate::picnic::images::{image_url, spec_image_url};
use crate::picnic::models::ImageSize;
use crate::picnic::pages::{
    children_supported, lemma_child_supported, Analytics, ArticleTile, PageBody, PageChildren, PagePml, PagesRoot,
    PmlNode,
};
use crate::providers::common_bridge::{
    cap, get_guessed_sale_validity, max_timestamp, min_timestamp, parse_sale_label, spec_parse_sale_label,
};
use crate::providers::jumbo_bridge::{opt_sale_info_view, sale_info_view};
use crate::providers::jumbo_promotions::clone_sale_info;
use crate::providers::models::{
    Provider, SaleInformation, WggSaleCategory, WggSaleGroupComplete, WggSaleGroupLimited, WggSaleItem,
    WggSearchProduct,
};
use crate::providers::picnic_products::{
    article_supported, guessed_validity, opt_str_view, parse_picnic_item_to_search_item_at, picnic_search_item_of,
};
use crate::text::{chars_of, contains_seq, remove_all, remove_text, spec_contains_seq};

verus! {

// ** Regular expressions **

/// The group id in the deeplink of a promotion list article.
pub open spec fn promo_link_pattern() -> Seq<char> {
    ".*promo_group_id=(.*)"@
}

/// The text between the closing bracket of a PML markdown prefix and the next `#`.
pub open spec fn pml_markdown_pattern() -> Seq<char> {
    "#.*?\\)(.*?)#.*"@
}

/// Group 1 of the first match of `pattern` in `text`.
pub open spec fn first_group(pattern: Seq<char>, text: Seq<char>) -> Option<Seq<char>> {
    match regex_captures(pattern, text) {
        Some(caps) => cap(caps, 1),
        None => None,
    }
}

/// Group 1 of the first match of `pattern` in `text`, see [first_group].
pub(crate) fn first_group_of(pattern: &str, text: &str) -> (res: Option<String>)
    ensures
        opt_str_view(res) == first_group(pattern@, text@),
{
    match captures(pattern, text) {
        Some(caps) => {
            proof {
                assert(captures_view(caps@).len() == caps@.len());
            }
            if caps.len() > 1 {
                match &caps[1] {
                    Some(g) => Some(g.clone()),
                    None => None,
                }
            } else {
                None
            }
        },
        None => None,
    }
}

/// The text that a PML markdown string shows, without its styling prefix and suffix.
pub fn parse_pml_markdown(contents: &str) -> (res: Option<String>)
    ensures
        opt_str_view(res) == first_group(pml_markdown_pattern(), contents@),
{
    first_group_of("#.*?\\)(.*?)#.*", contents)
}

// ** One article of a promotion list **

/// The group id that an article's analytics link to: group 1 of the deeplink of its second context.
pub open spec fn article_group_id(a: Analytics) -> Option<Seq<char>> {
    if a.contexts@.len() < 2 {
        None
    } else {
        match a.contexts@[1].data.deeplink {
            Some(link) => first_group(promo_link_pattern(), link@),
            None => None,
        }
    }
}

/// The category name after reading an article: it stays once known; else, when the article links to a
/// group, it is the name of the last context after the second one, if there is such a context.
pub open spec fn spec_category_name(before: Option<String>, article: PagePml) -> Option<String> {
    let ctx = article.analytics.contexts@;
    if article_group_id(article.analytics) is Some && before is None && ctx.len() >= 3 {
        ctx.last().data.name
    } else {
        before
    }
}

/// The node inside a container, if `n` is one with a child.
pub open spec fn container_child(n: PmlNode) -> Option<PmlNode> {
    match n {
        PmlNode::Container { child: Some(c) } => Some(*c),
        _ => None,
    }
}

/// The children of `n`, if it is a stack.
pub open spec fn stack_children(n: PmlNode) -> Option<Seq<PmlNode>> {
    match n {
        PmlNode::Stack { children } => Some(children@),
        _ => None,
    }
}

/// The markdown of the rich text inside container `n`.
pub open spec fn contained_markdown(n: PmlNode) -> Option<Seq<char>> {
    match container_child(n) {
        Some(PmlNode::RichText { markdown }) => Some(markdown@),
        _ => None,
    }
}

/// The parts of a list article's PML: its accessibility label, the id of its image, and the markdown of
/// its title and of its description. The component is a touchable whose container holds a stack of an
/// image container and a container of a stack, whose first child is a stack of the two text containers.
pub open spec fn pml_parts(component: Option<PmlNode>) -> Option<(Seq<char>, Seq<char>, Seq<char>, Seq<char>)> {
    match component {
        Some(PmlNode::Touchable { accessibility_label: Some(label), child: Some(t) }) => match container_child(*t) {
            Some(inner) => match stack_children(inner) {
                Some(cs) => if cs.len() < 2 {
                    None
                } else {
                    match (container_child(cs[0]), container_child(cs[1])) {
                        (Some(PmlNode::Image { source_id }), Some(data)) => match stack_children(data) {
                            Some(ds) => if ds.len() == 0 {
                                None
                            } else {
                                match stack_children(ds[0]) {
                                    Some(ts) => if ts.len() < 2 {
                                        None
                                    } else {
                                        match (contained_markdown(ts[0]), contained_markdown(ts[1])) {
                                            (Some(tm), Some(dm)) => Some((label@, source_id@, tm, dm)),
                                            _ => None,
                                        }
                                    },
                                    None => None,
                                }
                            },
                            None => None,
                        },
                        _ => None,
                    }
                },
                None => None,
            },
            None => None,
        },
        _ => None,
    }
}

/// What a list article reads as: its group id, its title, its description (when that reads), the sale
/// text (the accessibility label without the title) and its image id.
pub open spec fn list_article_parts(a: PagePml) -> Option<(Seq<char>, Seq<char>, Option<Seq<char>>, Seq<char>, Seq<char>)> {
    match (article_group_id(a.analytics), pml_parts(a.component)) {
        (Some(group_id), Some((label, image_id, tm, dm))) => match first_group(pml_markdown_pattern(), tm) {
            Some(title) => Some(
                (group_id, title, first_group(pml_markdown_pattern(), dm), remove_all(label, title), image_id),
            ),
            None => None,
        },
        _ => None,
    }
}

/// The sale information of a list article with sale text `text`, at time `now`: the text as label when
/// it reads as a sale, else `UNKNOWN` without a sale type; valid for the week of `now`.
pub open spec fn list_sale_view(text: Seq<char>, now: int) -> (Seq<char>, Seq<Seq<char>>, crate::providers::models::SaleValidity, Option<crate::providers::models::SaleType>) {
    match spec_parse_sale_label(text) {
        Some(t) => (text, seq![], guessed_validity(now), Some(t)),
        None => ("UNKNOWN"@, seq![], guessed_validity(now), None),
    }
}

/// Whether `g` is the limited sale group of a list article whose parts are `parts`, at time `now`.
pub open spec fn list_group_of(
    g: WggSaleGroupLimited,
    parts: (Seq<char>, Seq<char>, Option<Seq<char>>, Seq<char>, Seq<char>),
    now: int,
) -> bool {
    let (group_id, title, description, text, image_id) = parts;
    &&& g.id@ == group_id
    &&& g.name@ == title
    &&& g.image_urls@.map_values(|s: String| s@) == seq![spec_image_url(image_id, ImageSize::Small)]
    &&& g.items@.len() == 0
    &&& sale_info_view(g.sale_info) == list_sale_view(text, now)
    &&& opt_str_view(g.sale_description) == description
    &&& g.provider == Provider::Picnic
}

/// Whether `res` is what a list article gives at time `now`: a limited sale group when it reads (see
/// [list_article_parts]), else nothing.
pub open spec fn list_article_item_of(res: Option<WggSaleItem>, article: PagePml, now: int) -> bool {
    match list_article_parts(article) {
        Some(parts) => res matches Some(WggSaleItem::Group(g)) && list_group_of(g, parts, now),
        None => res is None,
    }
}

/// The node inside a container.
fn child_of_container(n: &PmlNode) -> (res: Option<&PmlNode>)
    ensures
        match res {
            Some(c) => container_child(*n) == Some(*c),
            None => container_child(*n) is None,
        },
{
    match n {
        PmlNode::Container { child: Some(c) } => Some(&**c),
        _ => None,
    }
}

/// The children of a stack.
fn children_of_stack(n: &PmlNode) -> (res: Option<&Vec<PmlNode>>)
    ensures
        match res {
            Some(cs) => stack_children(*n) == Some(cs@),
            None => stack_children(*n) is None,
        },
{
    match n {
        PmlNode::Stack { children } => Some(children),
        _ => None,
    }
}

/// The markdown of the rich text inside a container.
fn markdown_in(n: &PmlNode) -> (res: Option<&String>)
    ensures
        match res {
            Some(m) => contained_markdown(*n) == Some(m@),
            None => contained_markdown(*n) is None,
        },
{
    match child_of_container(n) {
        Some(PmlNode::RichText { markdown }) => Some(markdown),
        _ => None,
    }
}

/// The parts of a list article's PML, see [pml_parts].
fn article_pml_parts(component: &Option<PmlNode>) -> (res: Option<(String, String, String, String)>)
    ensures
        match res {
            Some((label, image_id, tm, dm)) => pml_parts(*component) == Some((label@, image_id@, tm@, dm@)),
            None => pml_parts(*component) is None,
        },
{
    let (label, t) = match component {
        Some(PmlNode::Touchable { accessibility_label: Some(label), child: Some(t) }) => (label, &**t),
        _ => return None,
    };
    let inner = match child_of_container(t) {
        Some(i) => i,
        None => return None,
    };
    let cs = match children_of_stack(inner) {
        Some(cs) => cs,
        None => return None,
    };
    if cs.len() < 2 {
        return None;
    }
    let image_id = match child_of_container(&cs[0]) {
        Some(PmlNode::Image { source_id }) => source_id,
        _ => return None,
    };
    let data = match child_of_container(&cs[1]) {
        Some(d) => d,
        None => return None,
    };
    let ds = match children_of_stack(data) {
        Some(ds) => ds,
        None => return None,
    };
    if ds.len() == 0 {
        return None;
    }
    let ts = match children_of_stack(&ds[0]) {
        Some(ts) => ts,
        None => return None,
    };
    if ts.len() < 2 {
        return None;
    }
    let tm = match markdown_in(&ts[0]) {
        Some(m) => m,
        None => return None,
    };
    let dm = match markdown_in(&ts[1]) {
        Some(m) => m,
        None => return None,
    };
    Some((label.clone(), image_id.clone(), tm.clone(), dm.clone()))
}

/// The group id that an article's analytics link to, see [article_group_id].
fn group_id_of(a: &Analytics) -> (res: Option<String>)
    ensures
        opt_str_view(res) == article_group_id(*a),
{
    if a.contexts.len() < 2 {
        return None;
    }
    match &a.contexts[1].data.deeplink {
        Some(link) => first_group_of(".*promo_group_id=(.*)", link.as_str()),
        None => None,
    }
}

/// Parse one article of a Picnic promotion list at time `now` into a limited sale group, and update the
/// `category_name` of the list from the article's analytics.
pub fn parse_list_article_item_at(category_name: &mut Option<String>, article: PagePml, now: i64) -> (res: Option<
    WggSaleItem,
>)
    requires
        min_timestamp() <= now <= max_timestamp(),
    ensures
        list_article_item_of(res, article, now as int),
        *final(category_name) == spec_category_name(*old(category_name), article),
{
    let group_id = match group_id_of(&article.analytics) {
        Some(g) => g,
        None => return None,
    };
    let n = article.analytics.contexts.len();
    if category_name.is_none() && n >= 3 {
        *category_name = article.analytics.contexts[n - 1].data.name.clone();
    }
    let (label, image_id, tm, dm) = match article_pml_parts(&article.component) {
        Some(p) => p,
        None => return None,
    };
    let title = match parse_pml_markdown(tm.as_str()) {
        Some(t) => t,
        None => return None,
    };
    let description = parse_pml_markdown(dm.as_str());
    let sale_text = remove_text(label.as_str(), title.as_str());
    let validity = get_guessed_sale_validity(now);
    let sale_info = match parse_sale_label(sale_text.as_str()) {
        Some(sale) => SaleInformation {
            label: sale_text,
            additional_label: Vec::new(),
            sale_validity: validity,
            sale_type: Some(sale),
        },
        None => SaleInformation {
            label: String::from_str("UNKNOWN"),
            additional_label: Vec::new(),
            sale_validity: validity,
            sale_type: None,
        },
    };
    let mut image_urls: Vec<String> = Vec::new();
    image_urls.push(image_url(image_id.as_str(), ImageSize::Small));
    let group = WggSaleGroupLimited {
        id: group_id,
        name: title,
        image_urls,
        items: Vec::new(),
        sale_info,
        sale_description: description,
        provider: Provider::Picnic,
    };
    proof {
        assert(group.image_urls@.map_values(|s: String| s@) =~= seq![
            spec_image_url(image_id@, ImageSize::Small),
        ]);
        assert(group.sale_info.additional_label@.map_values(|t: String| t@) =~= Seq::<Seq<char>>::empty());
    }
    Some(WggSaleItem::Group(group))
}

// ** Article tiles **

/// The article tiles among `cs`, in order.
pub open spec fn tile_articles(cs: Seq<PageChildren>) -> Seq<ArticleTile>
    decreases cs.len(),
{
    if cs.len() == 0 {
        seq![]
    } else {
        match cs.last() {
            PageChildren::ArticleTile(t) => tile_articles(cs.drop_last()).push(t),
            _ => tile_articles(cs.drop_last()),
        }
    }
}

/// The name of the last analytics context of a tile.
pub open spec fn last_context_name(t: ArticleTile) -> Option<String> {
    if t.analytics.contexts@.len() > 0 {
        t.analytics.contexts@.last().data.name
    } else {
        None
    }
}

/// The category name that tiles give: the first name found, tile by tile, as the last context's name.
pub open spec fn tiles_category(ts: Seq<ArticleTile>) -> Option<String>
    decreases ts.len(),
{
    if ts.len() == 0 {
        None
    } else {
        match tiles_category(ts.drop_last()) {
            Some(n) => Some(n),
            None => last_context_name(ts.last()),
        }
    }
}

/// Whether `items` are the search items of the articles of tiles `ts`, at time `now`.
pub open spec fn tile_products_of(items: Seq<WggSearchProduct>, ts: Seq<ArticleTile>, now: int) -> bool {
    &&& items.len() == ts.len()
    &&& forall|i: int| 0 <= i < items.len() ==> picnic_search_item_of(#[trigger] items[i], ts[i].article, now)
}

/// Parse the article tiles among `children` at time `now`, with the category name they give.
fn parse_tiles_at(children: Vec<PageChildren>, now: i64) -> (res: (Vec<WggSearchProduct>, Option<String>))
    requires
        children_supported(children@),
        min_timestamp() <= now <= max_timestamp(),
    ensures
        tile_products_of(res.0@, tile_articles(children@), now as int),
        res.1 == tiles_category(tile_articles(children@)),
{
    let ghost cs = children@;
    assert forall|i: int| 0 <= i < cs.len() implies (#[trigger] cs[i] matches PageChildren::ArticleTile(t)
        ==> article_supported(t.article)) by {
        lemma_child_supported(cs, i);
    }
    let mut rest = children;
    let mut items: Vec<WggSearchProduct> = Vec::new();
    let mut name: Option<String> = None;
    let mut k: usize = 0;
    let total: usize = rest.len();
    proof {
        assert(cs.skip(0) =~= cs);
        assert(cs.take(0) =~= Seq::<PageChildren>::empty());
    }
    while rest.len() > 0
        invariant
            k + rest.len() == cs.len(),
            cs.len() == total,
            rest@ == cs.skip(k as int),
            forall|i: int| 0 <= i < cs.len() ==> (#[trigger] cs[i] matches PageChildren::ArticleTile(t)
                ==> article_supported(t.article)),
            min_timestamp() <= now <= max_timestamp(),
            tile_products_of(items@, tile_articles(cs.take(k as int)), now as int),
            name == tiles_category(tile_articles(cs.take(k as int))),
        decreases rest.len(),
    {
        let ghost before = rest@;
        let child = rest.remove(0);
        proof {
            assert(rest@ =~= cs.skip(k + 1));
            assert(child == cs[k as int]);
            assert(cs.take(k + 1).drop_last() =~= cs.take(k as int));
            assert(cs.take(k + 1).last() == cs[k as int]);
        }
        match child {
            PageChildren::ArticleTile(tile) => {
                let ghost ts = tile_articles(cs.take(k as int));
                let ghost t = tile;
                proof {
                    assert(tile_articles(cs.take(k + 1)) == ts.push(t));
                    assert(ts.push(t).drop_last() =~= ts);
                }
                if name.is_none() {
                    let n = tile.analytics.contexts.len();
                    if n > 0 {
                        name = tile.analytics.contexts[n - 1].data.name.clone();
                    }
                }
                let item = parse_picnic_item_to_search_item_at(tile.article, now);
                let ghost prev = items@;
                items.push(item);
                proof {
                    assert forall|i: int| 0 <= i < items@.len() implies picnic_search_item_of(
                        #[trigger] items@[i],
                        ts.push(t)[i].article,
                        now as int,
                    ) by {
                        if i < prev.len() {
                            assert(items@[i] == prev[i]);
                            assert(ts.push(t)[i] == ts[i]);
                        }
                    }
                }
            },
            _ => {},
        }
        k = k + 1;
    }
    proof {
        assert(cs.take(k as int) =~= cs);
    }
    (items, name)
}

// ** Vertical tiles **

/// The group id in the id of a vertical promotion group.
pub open spec fn promo_group_pattern() -> Seq<char> {
    ".*promo-group-(.*)"@
}

/// What a block of vertical tiles reads as: its promotion id, the children of its article block and
/// whether that block ends in a PML component (a `more` button). Its first child is an `inner` block,
/// whose last child is the promotion group, whose second child is the article block.
pub open spec fn vertical_tiles_parts(p: PageBody) -> Option<(Seq<char>, Seq<PageChildren>, bool)> {
    if p.children@.len() == 0 {
        None
    } else {
        match p.children@[0] {
            PageChildren::Block(child) => if !spec_contains_seq(child.id@, "inner"@) || child.children@.len() == 0 {
                None
            } else {
                match child.children@.last() {
                    PageChildren::Block(nested) => match first_group(promo_group_pattern(), nested.id@) {
                        Some(pid) => if nested.children@.len() < 2 {
                            None
                        } else {
                            match nested.children@[1] {
                                PageChildren::Block(ab) => Some(
                                    (
                                        pid,
                                        ab.children@,
                                        ab.children@.len() > 0 && ab.children@.last() is Pml,
                                    ),
                                ),
                                _ => None,
                            }
                        },
                        None => None,
                    },
                    _ => None,
                }
            },
            _ => None,
        }
    }
}

/// Whether `name` is the category name `found`, or `UNKNOWN` when none was found.
pub open spec fn name_or_unknown(name: String, found: Option<String>) -> bool {
    match found {
        Some(n) => name == n,
        None => name@ == "UNKNOWN"@,
    }
}

/// Whether `items` are the products of the search items `products`, in order.
pub open spec fn products_as_items(items: Seq<WggSaleItem>, products: Seq<WggSearchProduct>) -> bool {
    &&& items.len() == products.len()
    &&& forall|i: int| 0 <= i < items.len() ==> #[trigger] items[i] == WggSaleItem::Product(products[i])
}

/// Whether `c` is the sale category of a block of vertical tiles with parts `parts`, at time `now`: its
/// products with the category name they give, complete unless there is a `more` button.
pub open spec fn vertical_category_of(c: WggSaleCategory, parts: (Seq<char>, Seq<PageChildren>, bool), now: int) -> bool {
    let (pid, cs, more) = parts;
    &&& c.id matches Some(id) && id@ == pid
    &&& name_or_unknown(c.name, tiles_category(tile_articles(cs)))
    &&& exists|products: Seq<WggSearchProduct>|
        products_as_items(c.items@, products) && #[trigger] tile_products_of(products, tile_articles(cs), now)
    &&& c.image_urls@.len() == 0
    &&& c.complete == !more
    &&& c.provider == Provider::Picnic
}

fn products_into_items(products: Vec<WggSearchProduct>) -> (res: Vec<WggSaleItem>)
    ensures
        products_as_items(res@, products@),
{
    let ghost ps = products@;
    let mut rest = products;
    let mut res: Vec<WggSaleItem> = Vec::new();
    let mut k: usize = 0;
    let total: usize = rest.len();
    proof {
        assert(ps.skip(0) =~= ps);
    }
    while rest.len() > 0
        invariant
            k + rest.len() == ps.len(),
            ps.len() == total,
            rest@ == ps.skip(k as int),
            res@.len() == k,
            forall|i: int| 0 <= i < k ==> #[trigger] res@[i] == WggSaleItem::Product(ps[i]),
        decreases rest.len(),
    {
        let p = rest.remove(0);
        proof {
            assert(rest@ =~= ps.skip(k + 1));
            assert(p == ps[k as int]);
        }
        res.push(WggSaleItem::Product(p));
        k = k + 1;
    }
    res
}

/// Parse a block of vertical promotion tiles at time `now` into a sale category, see
/// [vertical_tiles_parts]; `None` when the block does not have that shape.
pub fn parse_promo_vertical_tiles_at(promotion: PageBody, now: i64) -> (res: Option<WggSaleCategory>)
    requires
        children_supported(promotion.children@),
        min_timestamp() <= now <= max_timestamp(),
    ensures
        match vertical_tiles_parts(promotion) {
            Some(parts) => res matches Some(c) && vertical_category_of(c, parts, now as int),
            None => res is None,
        },
{
    let ghost p = promotion;
    let mut children = promotion.children;
    if children.len() == 0 {
        return None;
    }
    proof {
        lemma_child_supported(children@, 0);
    }
    let first = children.remove(0);
    let child = match first {
        PageChildren::Block(b) => b,
        _ => return None,
    };
    let inner = chars_of("inner");
    let id = chars_of(child.id.as_str());
    if !contains_seq(&id, &inner) {
        return None;
    }
    let mut grand = child.children;
    if grand.len() == 0 {
        return None;
    }
    proof {
        lemma_child_supported(grand@, grand@.len() - 1);
    }
    let last = grand.pop();
    let nested = match last {
        Some(PageChildren::Block(b)) => b,
        _ => return None,
    };
    let pid = match first_group_of(".*promo-group-(.*)", nested.id.as_str()) {
        Some(pid) => pid,
        None => return None,
    };
    let mut nested_children = nested.children;
    if nested_children.len() < 2 {
        return None;
    }
    proof {
        lemma_child_supported(nested_children@, 1);
    }
    let second = nested_children.remove(1);
    let block = match second {
        PageChildren::Block(b) => b,
        _ => return None,
    };
    let n = block.children.len();
    let more = n > 0 && match &block.children[n - 1] {
        PageChildren::Pml(_) => true,
        _ => false,
    };
    let ghost cs = block.children@;
    let (products, found) = parse_tiles_at(block.children, now);
    let ghost ps = products@;
    let items = products_into_items(products);
    let name = match found {
        Some(n) => n,
        None => String::from_str("UNKNOWN"),
    };
    let c = WggSaleCategory {
        id: Some(pid),
        name,
        items,
        image_urls: Vec::new(),
        complete: !more,
        provider: Provider::Picnic,
    };
    proof {
        assert(products_as_items(c.items@, ps) && tile_products_of(ps, tile_articles(cs), now as int));
    }
    Some(c)
}

// ** One promotion **

/// The sale information of the first search item that has one.
pub open spec fn first_item_sale(items: Seq<WggSearchProduct>) -> Option<SaleInformation>
    decreases items.len(),
{
    if items.len() == 0 {
        None
    } else {
        match items[0].sale_information {
            Some(s) => Some(s),
            None => first_item_sale(items.drop_first()),
        }
    }
}

/// The tiles of a promotion page: those of the first block of the first block of its body, when that block
/// is one of vertical selling unit tiles.
pub open spec fn promotion_tiles(p: PagesRoot) -> Option<Seq<PageChildren>> {
    if p.body.children@.len() == 0 {
        None
    } else {
        match p.body.children@[0] {
            PageChildren::Block(content) => if content.children@.len() == 0 {
                None
            } else {
                match content.children@[0] {
                    PageChildren::Block(vt) => if spec_contains_seq(vt.id@, "vertical-selling-unit-tiles"@) {
                        Some(vt.children@)
                    } else {
                        None
                    },
                    _ => None,
                }
            },
            _ => None,
        }
    }
}

/// Whether `g` is the complete sale group `sublist_id` of a promotion page whose tiles are `cs`, at time
/// `now`: named by the page's title, with the search items of the tiles, and the sale information of the
/// first of them that has one (else `UNKNOWN` for the week of `now`).
pub open spec fn promotion_group_of(g: WggSaleGroupComplete, sublist_id: Seq<char>, p: PagesRoot, cs: Seq<PageChildren>, now: int) -> bool {
    &&& g.id@ == sublist_id
    &&& g.name == p.header.title
    &&& g.image_urls@.len() == 0
    &&& tile_products_of(g.items@, tile_articles(cs), now)
    &&& sale_info_view(g.sale_info) == match first_item_sale(g.items@) {
        Some(s) => sale_info_view(s),
        None => ("UNKNOWN"@, seq![], guessed_validity(now), None),
    }
    &&& g.sale_description is None
    &&& g.provider == Provider::Picnic
}

/// The sale information of the first item that has one, see [first_item_sale].
fn first_sale_of(items: &Vec<WggSearchProduct>) -> (res: Option<SaleInformation>)
    ensures
        opt_sale_info_view(res) == opt_sale_info_view(first_item_sale(items@)),
{
    let mut i: usize = 0;
    proof {
        assert(items@.skip(0) =~= items@);
    }
    while i < items.len()
        invariant
            i <= items.len(),
            first_item_sale(items@) == first_item_sale(items@.skip(i as int)),
        decreases items.len() - i,
    {
        proof {
            assert(items@.skip(i as int)[0] == items@[i as int]);
        }
        match &items[i].sale_information {
            Some(s) => return Some(clone_sale_info(s)),
            None => {},
        }
        proof {
            assert(items@.skip(i + 1) =~= items@.skip(i as int).drop_first());
        }
        i = i + 1;
    }
    None
}

/// Parse a Picnic promotion page at time `now` into the complete sale group `sublist_id`, see
/// [promotion_tiles]; `None` when the page does not have that shape.
pub fn parse_new_picnic_promotion_at(sublist_id: String, promotion: PagesRoot, now: i64) -> (res: Option<
    WggSaleGroupComplete,
>)
    requires
        children_supported(promotion.body.children@),
        min_timestamp() <= now <= max_timestamp(),
    ensures
        match promotion_tiles(promotion) {
            Some(cs) => res matches Some(g) && promotion_group_of(g, sublist_id@, promotion, cs, now as int),
            None => res is None,
        },
{
    let ghost p = promotion;
    let title = promotion.header.title;
    let mut children = promotion.body.children;
    if children.len() == 0 {
        return None;
    }
    proof {
        lemma_child_supported(children@, 0);
    }
    let content = match children.remove(0) {
        PageChildren::Block(b) => b,
        _ => return None,
    };
    let mut inner = content.children;
    if inner.len() == 0 {
        return None;
    }
    proof {
        lemma_child_supported(inner@, 0);
    }
    let vt = match inner.remove(0) {
        PageChildren::Block(b) => b,
        _ => return None,
    };
    let key = chars_of("vertical-selling-unit-tiles");
    let id = chars_of(vt.id.as_str());
    if !contains_seq(&id, &key) {
        return None;
    }
    let (items, _) = parse_tiles_at(vt.children, now);
    let sale_info = match first_sale_of(&items) {
        Some(s) => s,
        None => SaleInformation {
            label: String::from_str("UNKNOWN"),
            additional_label: Vec::new(),
            sale_validity: get_guessed_sale_validity(now),
            sale_type: None,
        },
    };
    proof {
        assert(sale_info.additional_label@.map_values(|t: String| t@) =~= Seq::<Seq<char>>::empty()
            || first_item_sale(items@) is Some);
    }
    Some(
        WggSaleGroupComplete {
            id: sublist_id,
            name: title,
            image_urls: Vec::new(),
            items,
            sale_info,
            sale_description: None,
            provider: Provider::Picnic,
        },
    )
}

// ** Lists of promotion groups **

/// The PML components among `cs`, in order.
pub open spec fn pml_children(cs: Seq<PageChildren>) -> Seq<PagePml>
    decreases cs.len(),
{
    if cs.len() == 0 {
        seq![]
    } else {
        match cs.last() {
            PageChildren::Pml(p) => pml_children(cs.drop_last()).push(p),
            _ => pml_children(cs.drop_last()),
        }
    }
}

/// The articles among `ps` that read as list articles, in order.
pub open spec fn listed_articles(ps: Seq<PagePml>) -> Seq<PagePml>
    decreases ps.len(),
{
    if ps.len() == 0 {
        seq![]
    } else if list_article_parts(ps.last()) is Some {
        listed_articles(ps.drop_last()).push(ps.last())
    } else {
        listed_articles(ps.drop_last())
    }
}

/// The category name after reading the articles `ps` in turn, starting from `name`.
pub open spec fn category_after(name: Option<String>, ps: Seq<PagePml>) -> Option<String>
    decreases ps.len(),
{
    if ps.len() == 0 {
        name
    } else {
        spec_category_name(category_after(name, ps.drop_last()), ps.last())
    }
}

/// Whether `items` are the limited sale groups of the articles among `ps` that read, at time `now`.
pub open spec fn list_groups_of(items: Seq<WggSaleItem>, ps: Seq<PagePml>, now: int) -> bool {
    let ls = listed_articles(ps);
    &&& items.len() == ls.len()
    &&& forall|i: int|
        0 <= i < items.len() ==> (#[trigger] items[i] matches WggSaleItem::Group(g) && list_group_of(
            g,
            list_article_parts(ls[i]).unwrap(),
            now,
        ))
}

/// The children of a list of promotion groups: those of its last child, a `section-content` block.
pub open spec fn list_tiles_parts(p: PageBody) -> Option<Seq<PageChildren>> {
    if p.children@.len() == 0 {
        None
    } else {
        match p.children@.last() {
            PageChildren::Block(child) => if spec_contains_seq(child.id@, "section-content"@) {
                Some(child.children@)
            } else {
                None
            },
            _ => None,
        }
    }
}

/// The next number of an unnamed list, counting on from `n` (and round after the largest `u32`).
pub open spec fn next_misc(n: u32) -> u32 {
    if n == u32::MAX {
        0
    } else {
        (n + 1) as u32
    }
}

/// The name of unnamed list number `n`.
pub open spec fn misc_name(n: u32) -> Seq<char> {
    "Misc List "@ + decimal_digits(n as nat)
}

/// Whether `c` is the sale category of a list of promotion groups with children `cs`, at time `now`,
/// when `counter` lists were unnamed before it: named by its articles' analytics, or else the next
/// unnamed list; complete, with the groups of its articles.
pub open spec fn list_category_of(c: WggSaleCategory, cs: Seq<PageChildren>, counter: u32, now: int) -> bool {
    let ps = pml_children(cs);
    &&& c.id is None
    &&& match category_after(None, ps) {
        Some(n) => c.name == n,
        None => c.name@ == misc_name(next_misc(counter)),
    }
    &&& list_groups_of(c.items@, ps, now)
    &&& c.image_urls@.len() == 0
    &&& c.complete
    &&& c.provider == Provider::Picnic
}

/// Parse a list of promotion groups at time `now` into a sale category, see [list_tiles_parts]; `None`
/// when the block does not have that shape. A list whose articles name no category is named by the next
/// number of `misc_list_id`.
pub fn parse_promo_list_tiles_at(promotion: PageBody, misc_list_id: &mut u32, now: i64) -> (res: Option<
    WggSaleCategory,
>)
    requires
        min_timestamp() <= now <= max_timestamp(),
    ensures
        match list_tiles_parts(promotion) {
            Some(cs) => {
                &&& res matches Some(c) && list_category_of(c, cs, *old(misc_list_id), now as int)
                &&& *final(misc_list_id) == if category_after(None, pml_children(cs)) is None {
                    next_misc(*old(misc_list_id))
                } else {
                    *old(misc_list_id)
                }
            },
            None => res is None && *final(misc_list_id) == *old(misc_list_id),
        },
{
    let mut children = promotion.children;
    let last = children.pop();
    let child = match last {
        Some(PageChildren::Block(b)) => b,
        _ => return None,
    };
    let key = chars_of("section-content");
    let id = chars_of(child.id.as_str());
    if !contains_seq(&id, &key) {
        return None;
    }
    let ghost cs = child.children@;
    let mut rest = child.children;
    let total: usize = rest.len();
    let mut items: Vec<WggSaleItem> = Vec::new();
    let mut name: Option<String> = None;
    let mut k: usize = 0;
    proof {
        assert(cs.skip(0) =~= cs);
        assert(cs.take(0) =~= Seq::<PageChildren>::empty());
    }
    while rest.len() > 0
        invariant
            k + rest.len() == cs.len(),
            cs.len() == total,
            rest@ == cs.skip(k as int),
            min_timestamp() <= now <= max_timestamp(),
            name == category_after(None, pml_children(cs.take(k as int))),
            list_groups_of(items@, pml_children(cs.take(k as int)), now as int),
        decreases rest.len(),
    {
        let child = rest.remove(0);
        proof {
            assert(rest@ =~= cs.skip(k + 1));
            assert(child == cs[k as int]);
            assert(cs.take(k + 1).drop_last() =~= cs.take(k as int));
            assert(cs.take(k + 1).last() == cs[k as int]);
        }
        match child {
            PageChildren::Pml(pml) => {
                let ghost ps = pml_children(cs.take(k as int));
                let ghost x = pml;
                let ghost ls = listed_articles(ps);
                proof {
                    assert(pml_children(cs.take(k + 1)) == ps.push(x));
                    assert(ps.push(x).drop_last() =~= ps);
                    assert(ps.push(x).last() == x);
                }
                let item = parse_list_article_item_at(&mut name, pml, now);
                match item {
                    Some(it) => {
                        let ghost prev = items@;
                        items.push(it);
                        proof {
                            assert(listed_articles(ps.push(x)) == ls.push(x));
                            assert forall|i: int| 0 <= i < items@.len() implies (#[trigger] items@[i] matches WggSaleItem::Group(g)
                                && list_group_of(g, list_article_parts(ls.push(x)[i]).unwrap(), now as int)) by {
                                if i < prev.len() {
                                    assert(items@[i] == prev[i]);
                                    assert(ls.push(x)[i] == ls[i]);
                                }
                            }
                        }
                    },
                    None => {
                        proof {
                            assert(listed_articles(ps.push(x)) == ls);
                        }
                    },
                }
            },
            _ => {},
        }
        k = k + 1;
    }
    proof {
        assert(cs.take(k as int) =~= cs);
    }
    let name = match name {
        Some(n) => n,
        None => {
            let next = if *misc_list_id == u32::MAX {
                0
            } else {
                *misc_list_id + 1
            };
            *misc_list_id = next;
            let mut label = String::from_str("Misc List ");
            let digits = decimal_string(next as u64);
            label.append(digits.as_str());
            label
        },
    };
    Some(
        WggSaleCategory {
            id: None,
            name,
            items,
            image_urls: Vec::new(),
            complete: true,
            provider: Provider::Picnic,
        },
    )
}

// ** All promotions **

/// The block ids of promotion groups: vertical tiles, and lists of single-item groups.
pub open spec fn block_patterns() -> Seq<Seq<char>> {
    seq!["promo-groups-vertical-tiles.*"@, "promo-group-list-element-section.*"@]
}

/// Which kind of promotion group a child is, by the first block pattern its id matches.
pub open spec fn block_kind(c: PageChildren) -> Option<nat> {
    match c {
        PageChildren::Block(b) => regex_set_first_match(block_patterns(), b.id@),
        _ => None,
    }
}

/// Whether a child of the promotions page gives a sale category.
pub open spec fn gives_category(c: PageChildren) -> bool {
    match c {
        PageChildren::Block(b) => match block_kind(c) {
            Some(k) => if k == 0 {
                vertical_tiles_parts(b) is Some
            } else if k == 1 {
                list_tiles_parts(b) is Some
            } else {
                false
            },
            None => false,
        },
        _ => false,
    }
}

/// How many unnamed lists the children `cs` hold, counted as [parse_promo_list_tiles_at] counts them.
pub open spec fn misc_count(cs: Seq<PageChildren>) -> u32
    decreases cs.len(),
{
    if cs.len() == 0 {
        0
    } else {
        let m = misc_count(cs.drop_last());
        match cs.last() {
            PageChildren::Block(b) => if block_kind(cs.last()) == Some(1nat) {
                match list_tiles_parts(b) {
                    Some(parts) => if category_after(None, pml_children(parts)) is None {
                        next_misc(m)
                    } else {
                        m
                    },
                    None => m,
                }
            } else {
                m
            },
            _ => m,
        }
    }
}

/// Whether `c` is the sale category that child `child` of the promotions page gives at time `now`, after
/// `counter` unnamed lists.
pub open spec fn category_of_child(c: WggSaleCategory, child: PageChildren, counter: u32, now: int) -> bool {
    match child {
        PageChildren::Block(b) => if block_kind(child) == Some(0nat) {
            match vertical_tiles_parts(b) {
                Some(parts) => vertical_category_of(c, parts, now),
                None => false,
            }
        } else {
            match list_tiles_parts(b) {
                Some(cs) => list_category_of(c, cs, counter, now),
                None => false,
            }
        },
        _ => false,
    }
}

/// Whether `res` are the sale categories that the children `cs` of the promotions page give at time
/// `now`, in order.
pub open spec fn categories_of(res: Seq<WggSaleCategory>, cs: Seq<PageChildren>, now: int) -> bool
    decreases cs.len(),
{
    if cs.len() == 0 {
        res.len() == 0
    } else if gives_category(cs.last()) {
        &&& res.len() > 0
        &&& categories_of(res.drop_last(), cs.drop_last(), now)
        &&& category_of_child(res.last(), cs.last(), misc_count(cs.drop_last()), now)
    } else {
        categories_of(res, cs.drop_last(), now)
    }
}

fn block_pattern_strings() -> (res: Vec<String>)
    ensures
        strings_view(res@) == block_patterns(),
{
    let mut v: Vec<String> = Vec::new();
    v.push(String::from_str("promo-groups-vertical-tiles.*"));
    v.push(String::from_str("promo-group-list-element-section.*"));
    proof {
        assert(strings_view(v@) =~= block_patterns());
    }
    v
}

/// Parse Picnic's promotions page at time `now` into sale categories: every block of vertical tiles
/// and every list of promotion groups, in order (see [categories_of]).
pub fn parse_new_picnic_promotions_at(promotions: PagesRoot, now: i64) -> (res: Vec<WggSaleCategory>)
    requires
        children_supported(promotions.body.children@),
        min_timestamp() <= now <= max_timestamp(),
    ensures
        categories_of(res@, promotions.body.children@, now as int),
{
    let ghost cs = promotions.body.children@;
    assert forall|i: int| 0 <= i < cs.len() implies (#[trigger] cs[i] matches PageChildren::Block(b)
        ==> children_supported(b.children@)) by {
        lemma_child_supported(cs, i);
    }
    let patterns = block_pattern_strings();
    let mut rest = promotions.body.children;
    let total: usize = rest.len();
    let mut res: Vec<WggSaleCategory> = Vec::new();
    let mut misc_list_id: u32 = 0;
    let mut k: usize = 0;
    proof {
        assert(cs.skip(0) =~= cs);
        assert(cs.take(0) =~= Seq::<PageChildren>::empty());
    }
    while rest.len() > 0
        invariant
            k + rest.len() == cs.len(),
            cs.len() == total,
            rest@ == cs.skip(k as int),
            forall|i: int| 0 <= i < cs.len() ==> (#[trigger] cs[i] matches PageChildren::Block(b)
                ==> children_supported(b.children@)),
            strings_view(patterns@) == block_patterns(),
            min_timestamp() <= now <= max_timestamp(),
            categories_of(res@, cs.take(k as int), now as int),
            misc_list_id == misc_count(cs.take(k as int)),
        decreases rest.len(),
    {
        let child = rest.remove(0);
        let ghost c = child;
        let ghost before = res@;
        let ghost pre = cs.take(k as int);
        proof {
            assert(rest@ =~= cs.skip(k + 1));
            assert(child == cs[k as int]);
            assert(cs.take(k + 1).drop_last() =~= pre);
            assert(cs.take(k + 1).last() == child);
        }
        match child {
            PageChildren::Block(b) => {
                let kind = first_matching_pattern(&patterns, b.id.as_str());
                proof {
                    assert(block_kind(c) == regex_set_first_match(block_patterns(), b.id@));
                }
                match kind {
                    Some(idx) => {
                        proof {
                            assert(strings_view(patterns@).len() == 2);
                            assert(block_kind(c) == Some(idx as nat));
                        }
                        if idx == 0 {
                            let ghost bb = b;
                            let found = parse_promo_vertical_tiles_at(b, now);
                            match found {
                                Some(cat) => {
                                    res.push(cat);
                                    proof {
                                        assert(res@.drop_last() =~= before);
                                        assert(res@.last() == cat);
                                        assert(gives_category(c));
                                        assert(category_of_child(cat, c, misc_count(pre), now as int));
                                    }
                                },
                                None => {
                                    proof {
                                        assert(!gives_category(c));
                                    }
                                },
                            }
                        } else {
                            let ghost old_misc = misc_list_id;
                            let found = parse_promo_list_tiles_at(b, &mut misc_list_id, now);
                            match found {
                                Some(cat) => {
                                    res.push(cat);
                                    proof {
                                        assert(res@.drop_last() =~= before);
                                        assert(res@.last() == cat);
                                        assert(gives_category(c));
                                        assert(category_of_child(cat, c, misc_count(pre), now as int));
                                    }
                                },
                                None => {
                                    proof {
                                        assert(!gives_category(c));
                                    }
                                },
                            }
                        }
                    },
                    None => {
                        proof {
                            assert(!gives_category(c));
                        }
                    },
                }
            },
            _ => {
                proof {
                    assert(!gives_category(c));
                }
            },
        }
        proof {
            let post = cs.take(k + 1);
            assert(post.drop_last() == pre);
            assert(post.last() == c);
        }
        k = k + 1;
    }
    proof {
        assert(cs.take(k as int) =~= cs);
    }
    res
}

} // verus!
