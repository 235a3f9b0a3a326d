use vstd::prelude::*;

verus! {

/// One page of results: its items, the total number of items, and the offset of the first one.
#[derive(Clone, Debug, PartialEq, Eq)]
pub struct OffsetPagination<T> {
    pub items: Vec<T>,
    pub total_items: usize,
    pub offset: u32,
}

} // verus!
