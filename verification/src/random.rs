//! The library's source of chance.

use crate::ids::CardId;
use vstd::prelude::*;

verus! {

/// A random seed: `rand::random::<u64>()`, drawn from the thread's
/// generator. Nothing is claimed of the number.
#[verifier::external_body]
pub(crate) fn random_seed() -> (seed: u64) {
    rand::random::<u64>()
}

/// The order into which the seeded shuffle puts a pile: what
/// `rand::seq::SliceRandom::shuffle` makes of the pile when it is driven
/// by the `rand::rngs::StdRng` that `rand::SeedableRng::seed_from_u64`
/// makes from `seed`.
pub uninterp spec fn shuffled(cards: Seq<u128>, seed: u64) -> Seq<u128>;

/// Shuffles `cards` in place with `rand::seq::SliceRandom::shuffle`, driven
/// by a `rand::rngs::StdRng` that `rand::SeedableRng::seed_from_u64` makes
/// from `seed`. The generator is made from the seed alone and the shuffle
/// draws from nothing but the generator, so the outcome is determined by
/// the pile and the seed; the contract gives it a name. It claims one
/// thing more: the shuffle only swaps entries, so the pile holds the same
/// cards as before, each as often as before.
#[verifier::external_body]
pub(crate) fn shuffle_with_seed(cards: &mut Vec<CardId>, seed: u64)
    ensures
        final(cards)@ == shuffled(old(cards)@, seed),
        final(cards)@.to_multiset() == old(cards)@.to_multiset(),
{
    let mut rng = <rand::rngs::StdRng as rand::SeedableRng>::seed_from_u64(seed);
    rand::seq::SliceRandom::shuffle(cards.as_mut_slice(), &mut rng);
}

} // verus!
