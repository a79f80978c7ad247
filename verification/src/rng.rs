//! The only two places randomness enters the verified library: an in-place
//! shuffle and a Bernoulli draw, both from the `rand` crate behind trusted
//! wrappers.  The contracts state only what holds of every possible outcome.

use rand::seq::SliceRandom;
use rand::Rng;
use vstd::prelude::*;

use crate::keys::Key;

verus! {

/// Relies on rand's `SliceRandom::shuffle`: a Fisher-Yates shuffle that
/// permutes the vector in place by swapping elements, so the multiset of
/// elements and the length are unchanged.  Which permutation comes out is
/// random and nothing is promised of it.
#[verifier::external_body]
pub(crate) fn shuffle_keys(keys: &mut Vec<Key>)
    ensures
        final(keys)@.len() == old(keys)@.len(),
        final(keys)@.to_multiset() == old(keys)@.to_multiset(),
{
    keys.shuffle(&mut rand::thread_rng());
}

/// Relies on rand's `Rng::gen_ratio`: a Bernoulli draw that is true with
/// probability `num / den`.  It panics when `den == 0` or `num > den`, so
/// those inputs are excluded; nothing is promised of the outcome.
#[verifier::external_body]
pub(crate) fn random_ratio(num: u32, den: u32) -> bool
    requires
        0 < den,
        num <= den,
{
    rand::thread_rng().gen_ratio(num, den)
}

} // verus!
