//! The random source of the game: the `rand` crate's standard generator.

use rand::rngs::StdRng;
use rand::seq::SliceRandom;
use rand::{Rng, SeedableRng};
use vstd::prelude::*;

use crate::domain::Card;

verus! {

/// `rand::rngs::StdRng`, carried through the game as an opaque value.
#[verifier::external_type_specification]
#[verifier::external_body]
pub struct ExStdRng(StdRng);

/// Calls `Rng::random_range(rng, 0..n)`. The `rand` documentation promises a
/// value of the range and a panic on an empty range; which value comes out
/// depends on the generator's state, so nothing more is stated.
#[verifier::external_body]
pub(crate) fn random_below(rng: &mut StdRng, n: usize) -> (r: usize)
    requires
        n > 0,
    ensures
        r < n,
{
    rng.random_range(0..n)
}

/// Calls `SeedableRng::seed_from_u64`: a generator seeded with `seed`. The
/// generator is opaque here, so nothing is stated of it.
#[verifier::external_body]
pub(crate) fn rng_from_seed(seed: u64) -> (r: StdRng) {
    StdRng::seed_from_u64(seed)
}

/// Calls `SliceRandom::shuffle` on the cards. The `rand` source shows a
/// Fisher-Yates pass made of swaps, so the result holds the same cards;
/// their order depends on the generator and is not stated.
#[verifier::external_body]
pub(crate) fn shuffle_cards(cards: &mut Vec<Card>, rng: &mut StdRng)
    ensures
        final(cards)@.to_multiset() == old(cards)@.to_multiset(),
        final(cards)@.len() == old(cards)@.len(),
{
    cards.shuffle(rng)
}

} // verus!
