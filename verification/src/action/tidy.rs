//! Remove blank lines and comments from a todo list

use vstd::prelude::*;
use crate::action::SortOrder;

verus! {

/// The default sort order for output.
pub fn default_sort_order() -> (r: SortOrder)
    ensures
        r == SortOrder::Original,
{
    SortOrder::Original
}

} // verus!
