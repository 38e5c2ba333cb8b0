//! Windows over the positions of a sequence that is read as a circle.

use vstd::prelude::*;
use itertools::Itertools;

verus! {

/// Calls `Itertools::circular_tuple_windows` of `itertools` on the range of
/// the positions `0..n`, for windows of three. It yields one window for each
/// position: the position itself and the two that follow it, where the first
/// position follows the last.
#[verifier::external_body]
pub(crate) fn ventanas_circulares(n: usize) -> (r: Vec<(usize, usize, usize)>)
    ensures
        r@.len() == n,
        forall|i: int|
            0 <= i < n ==> #[trigger] r@[i] == (
                i as usize,
                ((i + 1) % (n as int)) as usize,
                ((i + 2) % (n as int)) as usize,
            ),
{
    (0..n).circular_tuple_windows().collect()
}

} // verus!
