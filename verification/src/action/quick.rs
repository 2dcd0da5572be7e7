//! Show the smallest tasks

use vstd::prelude::*;
use crate::action::SortOrder;

verus! {

/// The default sort order for output.
pub fn default_sort_order() -> (r: SortOrder)
    ensures
        r == SortOrder::TshirtSize,
{
    SortOrder::TshirtSize
}

} // verus!
