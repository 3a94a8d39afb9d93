//! The rotation offsets in the two forms in which a hardware description of
//! the rho step takes them.

use crate::permutation::RHO;
use vstd::prelude::*;

verus! {

/// For each of the lanes 1 to 24: its rotation offset divided by 4, and the
/// remainder. Entry `k` belongs to lane `k + 1`.
pub fn rho_quarters() -> (r: Vec<(u32, u32)>)
    ensures
        r@.len() == 24,
        forall|k: int| 0 <= k < 24 ==> r@[k] == (RHO[k + 1] / 4, RHO[k + 1] % 4),
{
    let mut r: Vec<(u32, u32)> = Vec::new();
    let mut i: usize = 1;
    while i < 25
        invariant
            1 <= i <= 25,
            r@.len() == i - 1,
            forall|k: int| 0 <= k < i - 1 ==> r@[k] == (RHO[k + 1] / 4, RHO[k + 1] % 4),
        decreases 25 - i,
    {
        r.push((RHO[i] / 4, RHO[i] % 4));
        i += 1;
    }
    r
}

/// What 64 lacks of the offsets of two neighbouring lanes, packed into 12
/// bits: that of lane `2 * i` in the upper six, that of lane `2 * i - 1` in
/// the lower six.
pub open spec fn rho_pair(i: int) -> u32 {
    (((64 - RHO[2 * i]) as u32) << 6) | ((64 - RHO[2 * i - 1]) as u32)
}

/// The twelve packed pairs, for `i` from 1 to 12. Entry `k` is pair `k + 1`.
pub fn rho_pairs() -> (r: Vec<u32>)
    ensures
        r@.len() == 12,
        forall|k: int| 0 <= k < 12 ==> r@[k] == rho_pair(k + 1),
{
    let mut r: Vec<u32> = Vec::new();
    let mut i: usize = 1;
    while i < 13
        invariant
            1 <= i <= 13,
            r@.len() == i - 1,
            forall|k: int| 0 <= k < i - 1 ==> r@[k] == rho_pair(k + 1),
        decreases 13 - i,
    {
        r.push(((64 - RHO[2 * i]) << 6) | (64 - RHO[2 * i - 1]));
        i += 1;
    }
    r
}

} // verus!
