//! The 52-card deck and its shuffled copy.
use vstd::prelude::*;

use crate::cards::{Card, Suit};
use crate::chance::{shuffle_cards, thread_rng};

verus! {

/// The number of cards in a full deck.
pub const DECK_SIZE: usize = 52;

/// The suits in the order a fresh deck is laid out: spades, hearts,
/// diamonds, clubs.
pub open spec fn suit_in_order(i: int) -> Suit {
    if i == 0 {
        Suit::Spades
    } else if i == 1 {
        Suit::Hearts
    } else if i == 2 {
        Suit::Diamonds
    } else {
        Suit::Clubs
    }
}

/// A fresh deck before shuffling: for each suit in order, ranks 1 to 13.
pub open spec fn ordered_deck() -> Seq<Card> {
    Seq::new(52, |i: int| Card { rank: (i % 13 + 1) as u8, suit: suit_in_order(i / 13) })
}

/// A full deck in some order: each of the 52 cards exactly once.
pub open spec fn is_full_deck(cards: Seq<Card>) -> bool {
    cards.to_multiset() == ordered_deck().to_multiset()
}

/// A newly shuffled full deck.
pub fn build_deck() -> (deck: Vec<Card>)
    ensures
        deck@.len() == DECK_SIZE,
        is_full_deck(deck@),
{
    let suits = [Suit::Spades, Suit::Hearts, Suit::Diamonds, Suit::Clubs];
    let mut deck: Vec<Card> = Vec::with_capacity(DECK_SIZE);
    let mut s: usize = 0;
    while s < 4
        invariant
            s <= 4,
            suits@ == seq![Suit::Spades, Suit::Hearts, Suit::Diamonds, Suit::Clubs],
            deck@ =~= ordered_deck().take(13 * s as int),
        decreases 4 - s,
    {
        let suit = suits[s];
        let mut rank: u8 = 1;
        while rank <= 13
            invariant
                1 <= rank <= 14,
                s < 4,
                suit == suit_in_order(s as int),
                deck@ =~= ordered_deck().take(13 * s + rank - 1),
            decreases 14 - rank,
        {
            proof {
                let i = 13 * s + rank - 1;
                assert(i / 13 == s as int) by (nonlinear_arith)
                    requires
                        i == 13 * s + rank - 1,
                        1 <= rank <= 13,
                ;
                assert(i % 13 + 1 == rank as int) by (nonlinear_arith)
                    requires
                        i == 13 * s + rank - 1,
                        1 <= rank <= 13,
                ;
                assert(ordered_deck().take(i + 1) =~= ordered_deck().take(i).push(
                    Card { rank, suit },
                ));
            }
            deck.push(Card { rank, suit });
            rank += 1;
        }
        s += 1;
    }
    assert(ordered_deck().take(52) =~= ordered_deck());
    let mut rng = thread_rng();
    shuffle_cards(&mut deck, &mut rng);
    deck
}

} // verus!
