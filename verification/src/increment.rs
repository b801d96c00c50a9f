//! The transform that the protocol applies to a request: add one.

use vstd::prelude::*;

verus! {

/// The response to `value`: one more than `value`. At the largest integer
/// the sum wraps around to the smallest.
pub open spec fn successor(value: i64) -> i64 {
    if value == i64::MAX {
        i64::MIN
    } else {
        (value + 1) as i64
    }
}

/// Adds one to `x`, wrapping around at the largest integer.
pub fn plus_one(x: &i64) -> (sum: i64)
    ensures
        sum == successor(*x),
        *x < i64::MAX ==> sum == *x + 1,
{
    if *x == i64::MAX {
        i64::MIN
    } else {
        *x + 1
    }
}

} // verus!
