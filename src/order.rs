use std::cmp::Ordering;
use vstd::prelude::*;

verus! {

/// The ordering of two integers.
pub open spec fn compare(a: int, b: int) -> Ordering {
    if a < b {
        Ordering::Less
    } else if a == b {
        Ordering::Equal
    } else {
        Ordering::Greater
    }
}

/// Compares two indices.
pub fn compare_usize(a: usize, b: usize) -> (r: Ordering)
    ensures
        r == compare(a as int, b as int),
{
    if a < b {
        Ordering::Less
    } else if a == b {
        Ordering::Equal
    } else {
        Ordering::Greater
    }
}

} // verus!
