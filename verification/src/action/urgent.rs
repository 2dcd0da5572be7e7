//! Show the most urgent tasks

use vstd::prelude::*;
use crate::action::SortOrder;

verus! {

/// The default sort order for output.
pub fn default_sort_order() -> (r: SortOrder)
    ensures
        r == SortOrder::Urgency,
{
    SortOrder::Urgency
}

} // verus!
