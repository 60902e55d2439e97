//! Helpers of the hypothesis search over finder-pattern pairs.

use vstd::prelude::*;

verus! {

/// The two indices in increasing order, so that a pair has one key.
pub fn sort_pair(a: usize, b: usize) -> (p: (usize, usize))
    ensures
        p.0 <= p.1,
        (p == (a, b) || p == (b, a)),
        a <= b ==> p == (a, b),
{
    if a <= b {
        (a, b)
    } else {
        (b, a)
    }
}

} // verus!
