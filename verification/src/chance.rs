//! Chance.
use rand::Rng;
use vstd::prelude::*;

verus! {

/// `Rng::gen_range` on the generator of the thread gives a number within the range, which must not
/// be empty. Which one is left open.
#[verifier::external_body]
pub(crate) fn random_below(limit: usize) -> (r: usize)
    requires
        limit > 0,
    ensures
        r < limit,
{
    rand::thread_rng().gen_range(0..limit)
}

} // verus!
