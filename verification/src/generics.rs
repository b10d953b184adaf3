//! Linear scans for the largest element of a slice.

use vstd::prelude::*;
use vstd::slice::slice_index_get;

verus! {

/// The largest value in a non-empty slice of numbers: the result is an
/// element of the slice and no element exceeds it.
pub fn largest_i32(list: &[i32]) -> (r: &i32)
    requires
        list@.len() > 0,
    ensures
        exists|i: int| 0 <= i < list@.len() && list@[i] == *r,
        forall|i: int| 0 <= i < list@.len() ==> list@[i] <= *r,
{
    let mut largest: usize = 0;
    let mut idx: usize = 1;
    while idx < list.len()
        invariant
            0 <= largest < list@.len(),
            1 <= idx <= list@.len(),
            forall|i: int| 0 <= i < idx ==> list@[i] <= list@[largest as int],
        decreases list@.len() - idx,
    {
        if *slice_index_get(list, idx) > *slice_index_get(list, largest) {
            largest = idx;
        }
        idx = idx + 1;
    }
    slice_index_get(list, largest)
}

/// The largest character in a non-empty slice, by the order on scalar
/// values: the result is an element of the slice and no element exceeds it.
pub fn largest_char(list: &[char]) -> (r: &char)
    requires
        list@.len() > 0,
    ensures
        exists|i: int| 0 <= i < list@.len() && list@[i] == *r,
        forall|i: int| 0 <= i < list@.len() ==> list@[i] <= *r,
{
    let mut largest: usize = 0;
    let mut idx: usize = 1;
    while idx < list.len()
        invariant
            0 <= largest < list@.len(),
            1 <= idx <= list@.len(),
            forall|i: int| 0 <= i < idx ==> list@[i] <= list@[largest as int],
        decreases list@.len() - idx,
    {
        if *slice_index_get(list, idx) > *slice_index_get(list, largest) {
            largest = idx;
        }
        idx = idx + 1;
    }
    slice_index_get(list, largest)
}

} // verus!
