//! The random generator of the `rand` crate, as far as discovery uses it.
//!
//! Nothing in this module is proved: each item states what is taken on trust
//! of the generator.

use rand::rngs::SmallRng;
use rand::seq::SliceRandom;
use rand::RngCore;
use vstd::prelude::*;

verus! {

/// `rand::rngs::SmallRng`, a small, fast generator that is not fit for
/// cryptography. Its state is hidden.
#[verifier::external_type_specification]
#[verifier::external_body]
pub struct ExSmallRng(SmallRng);

/// Calls `RngCore::next_u32` on the generator, which hands out its next 32
/// bits. Nothing is claimed of them.
#[verifier::external_body]
pub(crate) fn next_u32(rng: &mut SmallRng) -> u32 {
    rng.next_u32()
}

/// Calls `SliceRandom::shuffle`, which reorders the items in place by
/// exchanging pairs of them. Whatever the generator yields, the list holds
/// afterwards what it held before, each item as often as before.
#[verifier::external_body]
pub(crate) fn shuffle<T>(items: &mut Vec<T>, rng: &mut SmallRng)
    ensures
        final(items)@.to_multiset() == old(items)@.to_multiset(),
{
    items.shuffle(rng)
}

} // verus!
