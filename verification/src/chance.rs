//! The random choices of the game, made by `rand` and trusted here.
use rand::seq::SliceRandom;
use rand::Rng;
use vstd::prelude::*;

use crate::cards::Card;

verus! {

/// `rand::rngs::ThreadRng`, the handle to this thread's generator.
#[verifier::external_type_specification]
#[verifier::external_body]
pub struct ExThreadRng(rand::rngs::ThreadRng);

/// `rand::thread_rng`: a handle to this thread's generator. Nothing is
/// stated of what it will produce.
#[verifier::external_body]
pub(crate) fn thread_rng() -> rand::rngs::ThreadRng {
    rand::thread_rng()
}

/// `rand::Rng::gen_range` on the inclusive range `low..=high`: some number
/// in that range. It asserts that the range is not empty, hence the
/// `requires`; which number comes back is chance.
#[verifier::external_body]
pub(crate) fn gen_range_inclusive(rng: &mut rand::rngs::ThreadRng, low: i32, high: i32) -> (r: i32)
    requires
        low <= high,
    ensures
        low <= r <= high,
{
    rng.gen_range(low..=high)
}

/// `rand::seq::SliceRandom::shuffle`: the cards are put in a random order
/// (it swaps them in place), so the same cards remain, as many times each.
#[verifier::external_body]
pub(crate) fn shuffle_cards(cards: &mut Vec<Card>, rng: &mut rand::rngs::ThreadRng)
    ensures
        final(cards)@.len() == old(cards)@.len(),
        final(cards)@.to_multiset() == old(cards)@.to_multiset(),
{
    cards.shuffle(rng)
}

} // verus!
