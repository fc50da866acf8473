//! Counts and byte totals as they are reported: kept within the range of
//! their type.

use vstd::prelude::*;

verus! {

/// `n` as a `u64`, and `u64::MAX` where it does not fit.
pub open spec fn saturated(n: nat) -> u64 {
    if n > u64::MAX {
        u64::MAX
    } else {
        n as u64
    }
}

/// `n` as a `u32`, and `u32::MAX` where it does not fit.
pub open spec fn saturated_count(n: nat) -> u32 {
    if n > u32::MAX {
        u32::MAX
    } else {
        n as u32
    }
}

/// A length as the count that is reported.
pub fn count_of(len: usize) -> (n: u32)
    ensures
        n == saturated_count(len as nat),
{
    if len > 0xffff_ffff {
        0xffff_ffff
    } else {
        len as u32
    }
}

} // verus!
