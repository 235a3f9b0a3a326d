use vstd::prelude::*;

use crate::picnic::models::SingleArticle;
use crate::providers::picnic_products::{article_supported, picnic_article_supported};

verus! {

// ** Pages **
//
// Picnic answers its promotion pages as a tree of blocks. These types hold the parts of that tree
// that the promotion parsers read.

/// A page: its header and its body.
#[derive(Debug, PartialEq, Eq)]
pub struct PagesRoot {
    pub header: PageHeader,
    pub body: PageBody,
}

/// The header of a page.
#[derive(Clone, Debug, PartialEq, Eq)]
pub struct PageHeader {
    pub title: String,
}

/// A block of a page, with its id and children.
#[derive(Debug, PartialEq, Eq)]
pub struct PageBody {
    pub id: String,
    pub children: Vec<PageChildren>,
}

/// A child of a block: another block, a PML component, an article tile, or something else.
#[derive(Debug, PartialEq, Eq)]
pub enum PageChildren {
    Block(PageBody),
    Pml(PagePml),
    ArticleTile(ArticleTile),
    Other,
}

/// A tile showing one article, with the analytics data around it.
#[derive(Debug, PartialEq, Eq)]
pub struct ArticleTile {
    pub article: SingleArticle,
    pub analytics: Analytics,
}

/// The analytics contexts of a tile or a PML component.
#[derive(Clone, Debug, PartialEq, Eq)]
pub struct Analytics {
    pub contexts: Vec<AnalyticsContext>,
}

/// One analytics context.
#[derive(Clone, Debug, PartialEq, Eq)]
pub struct AnalyticsContext {
    pub data: AnalyticsData,
}

/// The data of an analytics context: a name and a deeplink, when present.
#[derive(Clone, Debug, PartialEq, Eq)]
pub struct AnalyticsData {
    pub name: Option<String>,
    pub deeplink: Option<String>,
}

/// A PML component with its analytics data.
#[derive(Debug, PartialEq, Eq)]
pub struct PagePml {
    pub analytics: Analytics,
    pub component: Option<PmlNode>,
}

/// A node of a PML component tree.
#[derive(Debug, PartialEq, Eq)]
pub enum PmlNode {
    Touchable { accessibility_label: Option<String>, child: Option<Box<PmlNode>> },
    Container { child: Option<Box<PmlNode>> },
    Stack { children: Vec<PmlNode> },
    Image { source_id: String },
    RichText { markdown: String },
    Other,
}

// ** Which pages can be parsed **

/// Whether every article tile among `cs` and inside their blocks holds an article that can be parsed
/// (see [article_supported]).
pub open spec fn children_supported(cs: Seq<PageChildren>) -> bool
    decreases cs,
{
    if cs.len() == 0 {
        true
    } else {
        &&& children_supported(cs.drop_last())
        &&& match cs.last() {
            PageChildren::Block(b) => children_supported(b.children@),
            PageChildren::ArticleTile(t) => article_supported(t.article),
            _ => true,
        }
    }
}

/// Every child of supported children is supported, down to the articles of their tiles.
pub proof fn lemma_child_supported(cs: Seq<PageChildren>, i: int)
    requires
        children_supported(cs),
        0 <= i < cs.len(),
    ensures
        cs[i] matches PageChildren::Block(b) ==> children_supported(b.children@),
        cs[i] matches PageChildren::ArticleTile(t) ==> article_supported(t.article),
    decreases cs.len(),
{
    if i < cs.len() - 1 {
        assert(cs.drop_last()[i] == cs[i]);
        lemma_child_supported(cs.drop_last(), i);
    }
}

/// Whether every article tile among `cs` and inside their blocks holds an article that can be parsed,
/// see [children_supported].
pub fn picnic_children_supported(cs: &Vec<PageChildren>) -> (res: bool)
    ensures
        res == children_supported(cs@),
    decreases cs,
{
    let mut i: usize = 0;
    while i < cs.len()
        invariant
            i <= cs.len(),
            children_supported(cs@.take(i as int)),
        decreases cs.len() - i,
    {
        proof {
            assert(cs@.take(i + 1).drop_last() =~= cs@.take(i as int));
            assert(cs@.take(i + 1).last() == cs@[i as int]);
        }
        let ok = match &cs[i] {
            PageChildren::Block(b) => {
                proof {
                    assert(decreases_to!(cs => cs@));
                    assert(decreases_to!(cs@ => cs@[i as int]));
                    assert(decreases_to!(cs => b.children));
                }
                picnic_children_supported(&b.children)
            },
            PageChildren::ArticleTile(t) => picnic_article_supported(&t.article),
            _ => true,
        };
        if !ok {
            proof {
                lemma_children_prefix(cs@, (i + 1) as nat);
            }
            return false;
        }
        i = i + 1;
    }
    proof {
        assert(cs@.take(cs.len() as int) =~= cs@);
    }
    true
}

proof fn lemma_children_prefix(cs: Seq<PageChildren>, n: nat)
    requires
        n <= cs.len(),
        !children_supported(cs.take(n as int)),
    ensures
        !children_supported(cs),
    decreases cs.len() - n,
{
    if n < cs.len() {
        assert(cs.take(n as int + 1).drop_last() =~= cs.take(n as int));
        lemma_children_prefix(cs, n + 1);
    } else {
        assert(cs.take(n as int) =~= cs);
    }
}

} // verus!
