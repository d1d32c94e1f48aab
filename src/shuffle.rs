//! Seeded shuffling of the deck and the nursery.

use vstd::prelude::*;

use rand::seq::SliceRandom;
use rand::SeedableRng;
use rand_chacha::ChaChaRng;

use crate::cards::Card;

verus! {

/// The orders that the deck and the nursery take when both are shuffled by
/// one ChaCha generator seeded with `seed`, the deck first.
pub uninterp spec fn seeded_orders(seed: Seq<u8>, deck: Seq<Card>, nursery: Seq<Card>) -> (
    Seq<Card>,
    Seq<Card>,
);

/// Relies on rand_chacha's `ChaChaRng::from_seed` and rand's
/// `SliceRandom::shuffle`: the generator is a function of the seed, and a
/// shuffle only swaps elements, so each zone keeps its cards and the orders
/// depend on the seed and the zones alone.
#[verifier::external_body]
pub(crate) fn shuffle_zones(seed: [u8; 32], deck: &mut Vec<Card>, nursery: &mut Vec<Card>)
    ensures
        (final(deck)@, final(nursery)@) == seeded_orders(seed@, old(deck)@, old(nursery)@),
        final(deck)@.to_multiset() == old(deck)@.to_multiset(),
        final(nursery)@.to_multiset() == old(nursery)@.to_multiset(),
{
    let mut rng = ChaChaRng::from_seed(seed);
    deck.shuffle(&mut rng);
    nursery.shuffle(&mut rng);
}

} // verus!
