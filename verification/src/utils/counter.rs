//! Counting without overflow: a count that outgrows `u64` stays at the
//! largest `u64`.

use vstd::prelude::*;

verus! {

/// `size`, or the largest `u64` where it is larger.
pub open spec fn capped(size: nat) -> u64 {
    if size > u64::MAX {
        u64::MAX
    } else {
        size as u64
    }
}

/// The sum of two counts, or the largest `u64` where it is larger.
pub fn add_capped(total: u64, more: u64) -> (sum: u64)
    ensures
        sum == capped((total + more) as nat),
{
    if more > u64::MAX - total {
        u64::MAX
    } else {
        total + more
    }
}

} // verus!
