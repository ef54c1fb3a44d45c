//! The library's one source of chance.

use rand::Rng;
use vstd::prelude::*;

verus! {

/// Draws a place below `n` from the thread's generator.
///
/// This calls `Rng::gen_range` of the `rand` crate with the range `0..n` on
/// `rand::thread_rng()`. What is claimed of it is that the value drawn lies in
/// that range; `gen_range` panics on an empty range, which `n > 0` rules out.
/// Which value is drawn is left open.
#[verifier::external_body]
pub(crate) fn random_below(n: usize) -> (r: usize)
    requires
        n > 0,
    ensures
        r < n,
{
    rand::thread_rng().gen_range(0..n)
}

} // verus!
