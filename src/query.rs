//! The key condition of the range query, from which sort-key bounds are
//! given. `#pk` and `#sk` name the partition and sort key attributes;
//! `:pk`, `:start` and `:end` are the values bound to them.

use vstd::prelude::*;

verus! {

/// The key condition for a query with or without a lower and an upper
/// bound on the sort key.
pub open spec fn key_condition_of(has_start: bool, has_end: bool) -> Seq<char> {
    if has_start && has_end {
        "#pk = :pk AND #sk BETWEEN :start AND :end"@
    } else if has_start {
        "#pk = :pk AND #sk >= :start"@
    } else if has_end {
        "#pk = :pk AND #sk <= :end"@
    } else {
        "#pk = :pk"@
    }
}

/// The key condition expression of a query on one partition value, with a
/// sort-key range that is closed, bounded below, bounded above, or absent.
pub fn key_condition_expression(has_start: bool, has_end: bool) -> (r: &'static str)
    ensures
        r@ == key_condition_of(has_start, has_end),
{
    if has_start && has_end {
        "#pk = :pk AND #sk BETWEEN :start AND :end"
    } else if has_start {
        "#pk = :pk AND #sk >= :start"
    } else if has_end {
        "#pk = :pk AND #sk <= :end"
    } else {
        "#pk = :pk"
    }
}

} // verus!
