//! Turning the pages of an opened book.

use vstd::prelude::*;

verus! {

/// The number of the page that is shown after one step forward or back from
/// the page `current` of a book of `count` pages. There is no step past
/// either end.
pub open spec fn turned(current: nat, count: nat, forward: bool) -> nat {
    if forward {
        if current + 1 < count {
            current + 1
        } else {
            current
        }
    } else {
        if current > 0 {
            (current - 1) as nat
        } else {
            current
        }
    }
}

/// The number of the page that is shown after one step forward or back from
/// the page `current` of a book of `count` pages.
pub fn turn_page(current: usize, count: usize, forward: bool) -> (next: usize)
    ensures
        next == turned(current as nat, count as nat, forward),
        current < count ==> next < count,
{
    if forward {
        if current < count && current + 1 < count {
            current + 1
        } else {
            current
        }
    } else if current > 0 {
        current - 1
    } else {
        current
    }
}

} // verus!
