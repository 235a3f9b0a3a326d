use vstd::prelude::*;

verus! {

/// A string identifier of the Jumbo API.
pub trait Id: Sized {
    spec fn spec_id(&self) -> Seq<char>;

    fn id(&self) -> (res: &str)
        ensures
            res@ == self.spec_id(),
    ;

    fn from_id(id: String) -> (res: Self)
        ensures
            res.spec_id() == id@,
    ;
}

#[derive(Clone, Debug, PartialEq, Eq, Hash)]
pub struct ProductId(String);

#[derive(Clone, Debug, PartialEq, Eq, Hash)]
pub struct RuntimeId(String);

#[derive(Clone, Debug, PartialEq, Eq, Hash)]
pub struct TabId(String);

#[derive(Clone, Debug, PartialEq, Eq, Hash)]
pub struct PromotionId(String);

impl Id for ProductId {
    closed spec fn spec_id(&self) -> Seq<char> {
        self.0@
    }

    fn id(&self) -> (res: &str) {
        self.0.as_str()
    }

    fn from_id(id: String) -> (res: Self) {
        ProductId(id)
    }
}

impl Id for RuntimeId {
    closed spec fn spec_id(&self) -> Seq<char> {
        self.0@
    }

    fn id(&self) -> (res: &str) {
        self.0.as_str()
    }

    fn from_id(id: String) -> (res: Self) {
        RuntimeId(id)
    }
}

impl Id for TabId {
    closed spec fn spec_id(&self) -> Seq<char> {
        self.0@
    }

    fn id(&self) -> (res: &str) {
        self.0.as_str()
    }

    fn from_id(id: String) -> (res: Self) {
        TabId(id)
    }
}

impl Id for PromotionId {
    closed spec fn spec_id(&self) -> Seq<char> {
        self.0@
    }

    fn id(&self) -> (res: &str) {
        self.0.as_str()
    }

    fn from_id(id: String) -> (res: Self) {
        PromotionId(id)
    }
}

impl ProductId {
    /// The identifier as an owned string.
    pub fn into_string(self) -> (res: String)
        ensures
            res@ == self.spec_id(),
    {
        self.0
    }
}

impl PromotionId {
    /// The identifier as an owned string.
    pub fn into_string(self) -> (res: String)
        ensures
            res@ == self.spec_id(),
    {
        self.0
    }
}

} // verus!
