//! Scoring a blackjack hand: every card counts its points, aces count 11,
//! and aces drop to 1 one at a time for as long as the hand is over 21.
use vstd::prelude::*;

use crate::cards::{card_points, Card};

verus! {

/// The largest running total a hand keeps; adding past it stays at it.
pub const TOTAL_CAP: u8 = 255;

/// Adds `points` to a running total, stopping at the cap.
pub open spec fn add_capped(total: int, points: int) -> int {
    if total + points > TOTAL_CAP {
        TOTAL_CAP as int
    } else {
        total + points
    }
}

/// The running total of a hand with every ace counted as 11, added left to
/// right and capped at `TOTAL_CAP`.
pub open spec fn hard_total(hand: Seq<Card>) -> int
    decreases hand.len(),
{
    if hand.len() == 0 {
        0
    } else {
        add_capped(hard_total(hand.drop_last()), card_points(hand.last().rank))
    }
}

/// How many aces a hand holds.
pub open spec fn ace_count(hand: Seq<Card>) -> nat
    decreases hand.len(),
{
    if hand.len() == 0 {
        0
    } else {
        ace_count(hand.drop_last()) + if hand.last().rank == 1 {
            1nat
        } else {
            0nat
        }
    }
}

/// Starting from `total`, counts one more ace as 1 instead of 11 (10 points
/// less) while the total is over 21 and an ace is left to count so.
pub open spec fn soften(total: int, aces: nat) -> int
    decreases aces,
{
    if total > 21 && aces > 0 {
        soften(total - 10, (aces - 1) as nat)
    } else {
        total
    }
}

/// The score of a hand.
pub open spec fn hand_score(hand: Seq<Card>) -> int {
    soften(hard_total(hand), ace_count(hand))
}

/// A blackjack: the score is exactly 21.
pub open spec fn is_twenty_one(hand: Seq<Card>) -> bool {
    hand_score(hand) == 21
}

/// A bust: the score is over 21.
pub open spec fn is_bust(hand: Seq<Card>) -> bool {
    hand_score(hand) > 21
}

/// The hard total stays between 0 and the cap.
pub proof fn lemma_hard_total_bounds(hand: Seq<Card>)
    ensures
        0 <= hard_total(hand) <= TOTAL_CAP,
    decreases hand.len(),
{
    if hand.len() > 0 {
        lemma_hard_total_bounds(hand.drop_last());
    }
}

/// A prefix of a hand holds no more aces than the hand.
pub proof fn lemma_ace_count_prefix(hand: Seq<Card>, i: int)
    requires
        0 <= i <= hand.len(),
    ensures
        ace_count(hand.take(i)) <= ace_count(hand),
    decreases hand.len(),
{
    if i < hand.len() {
        assert(hand.take(i) =~= hand.drop_last().take(i));
        lemma_ace_count_prefix(hand.drop_last(), i);
    } else {
        assert(hand.take(i) =~= hand);
    }
}

/// A hand holds no more aces than cards.
pub proof fn lemma_ace_count_le_len(hand: Seq<Card>)
    ensures
        ace_count(hand) <= hand.len(),
    decreases hand.len(),
{
    if hand.len() > 0 {
        lemma_ace_count_le_len(hand.drop_last());
    }
}

/// The total after counting `k` aces as 1 instead of 11.
pub open spec fn with_low_aces(total: int, k: nat) -> int {
    total - 10 * k
}

/// Softening counts as 1 exactly the fewest aces that bring the total to 21
/// or under, or every ace when no number of them does: an ace counts 11
/// unless that would bust the hand.
pub proof fn lemma_soften_counts_fewest_aces(total: int, aces: nat)
    ensures
        exists|k: nat|
            k <= aces && soften(total, aces) == #[trigger] with_low_aces(total, k) && (forall|j: nat|
                j < k ==> #[trigger] with_low_aces(total, j) > 21) && (k < aces ==> with_low_aces(
                total,
                k,
            ) <= 21),
    decreases aces,
{
    if total > 21 && aces > 0 {
        lemma_soften_counts_fewest_aces(total - 10, (aces - 1) as nat);
        let k0 = choose|k: nat|
            k <= (aces - 1) as nat && soften(total - 10, (aces - 1) as nat)
                == #[trigger] with_low_aces(total - 10, k) && (forall|j: nat|
                j < k ==> #[trigger] with_low_aces(total - 10, j) > 21) && (k < (aces - 1) as nat
                ==> with_low_aces(total - 10, k) <= 21);
        let k: nat = k0 + 1;
        assert forall|j: nat| j < k implies #[trigger] with_low_aces(total, j) > 21 by {
            if j > 0 {
                let j0: nat = (j - 1) as nat;
                assert(with_low_aces(total - 10, j0) > 21);
            }
        }
        assert(soften(total, aces) == with_low_aces(total, k));
    } else {
        assert(soften(total, aces) == with_low_aces(total, 0));
    }
}

/// A hand scores over 21 only when every ace in it already counts 1.
pub proof fn lemma_bust_only_when_all_aces_low(hand: Seq<Card>)
    ensures
        is_bust(hand) ==> hand_score(hand) == hard_total(hand) - 10 * ace_count(hand),
{
    lemma_soften_counts_fewest_aces(hard_total(hand), ace_count(hand));
}

/// A hand that could reach 21 or under by counting aces as 1 never busts.
pub proof fn lemma_no_bust_when_avoidable(hand: Seq<Card>)
    ensures
        hard_total(hand) - 10 * ace_count(hand) <= 21 ==> hand_score(hand) <= 21,
{
    lemma_soften_counts_fewest_aces(hard_total(hand), ace_count(hand));
}

/// The ranks of a hand's cards, in order.
pub open spec fn ranks(hand: Seq<Card>) -> Seq<u8> {
    hand.map_values(|c: Card| c.rank)
}

/// The sum of `f` over a sequence of ranks.
pub open spec fn sum_by(s: Seq<u8>, f: spec_fn(u8) -> int) -> int
    decreases s.len(),
{
    if s.len() == 0 {
        0
    } else {
        sum_by(s.drop_last(), f) + f(s.last())
    }
}

/// Points of a rank with an ace as 11.
pub open spec fn high_points() -> spec_fn(u8) -> int {
    |r: u8| card_points(r)
}

/// Points of a rank with an ace as 1.
pub open spec fn low_points() -> spec_fn(u8) -> int {
    |r: u8|
        if r == 1 {
            1
        } else {
            card_points(r)
        }
}

/// 1 for an ace, 0 for any other rank.
pub open spec fn ace_mark() -> spec_fn(u8) -> int {
    |r: u8|
        if r == 1 {
            1
        } else {
            0
        }
}

/// The points of a hand with every ace as 11, with no cap.
pub open spec fn full_total(hand: Seq<Card>) -> int {
    sum_by(ranks(hand), high_points())
}

/// The points of a hand with every ace as 1.
pub open spec fn low_total(hand: Seq<Card>) -> int {
    sum_by(ranks(hand), low_points())
}

/// How the totals of a hand relate: every ace is ten points more as 11
/// than as 1, each ace is at least one low point, and below the cap the
/// running total is the plain sum.
pub proof fn lemma_totals(hand: Seq<Card>)
    ensures
        full_total(hand) == low_total(hand) + 10 * ace_count(hand),
        ace_count(hand) == sum_by(ranks(hand), ace_mark()),
        0 <= ace_count(hand) <= low_total(hand),
        full_total(hand) <= TOTAL_CAP ==> hard_total(hand) == full_total(hand),
    decreases hand.len(),
{
    if hand.len() > 0 {
        let rest = hand.drop_last();
        lemma_totals(rest);
        assert(ranks(hand).drop_last() =~= ranks(rest));
        assert(ranks(hand).last() == hand.last().rank);
    }
}

/// Below the cap a hand scores at least its points with every ace as 1.
pub proof fn lemma_score_at_least_low_total(hand: Seq<Card>)
    requires
        full_total(hand) <= TOTAL_CAP,
    ensures
        hand_score(hand) >= low_total(hand),
{
    lemma_totals(hand);
    lemma_soften_counts_fewest_aces(hard_total(hand), ace_count(hand));
}

/// Removing the rank at `i` takes its share out of a sum.
pub proof fn lemma_sum_by_remove(s: Seq<u8>, f: spec_fn(u8) -> int, i: int)
    requires
        0 <= i < s.len(),
    ensures
        sum_by(s, f) == sum_by(s.remove(i), f) + f(s[i]),
    decreases s.len(),
{
    if i < s.len() - 1 {
        assert(s.remove(i).drop_last() =~= s.drop_last().remove(i));
        assert(s.remove(i).last() == s.last());
        lemma_sum_by_remove(s.drop_last(), f, i);
    } else {
        assert(s.remove(i) =~= s.drop_last());
    }
}

/// A sum over ranks does not depend on their order.
pub proof fn lemma_sum_by_reordered(s1: Seq<u8>, s2: Seq<u8>, f: spec_fn(u8) -> int)
    requires
        s1.to_multiset() == s2.to_multiset(),
    ensures
        sum_by(s1, f) == sum_by(s2, f),
    decreases s1.len(),
{
    broadcast use {vstd::seq_lib::group_to_multiset_ensures, vstd::multiset::group_multiset_axioms};

    if s1.len() == 0 {
        assert(s2.to_multiset().len() == 0);
        assert(s2 =~= Seq::<u8>::empty());
    } else {
        let x = s1.last();
        let rest = s1.drop_last();
        assert(rest.push(x) =~= s1);
        assert(s1.to_multiset() =~= rest.to_multiset().insert(x));
        assert(s2.to_multiset().count(x) > 0);
        assert(s2.contains(x));
        let i = choose|i: int| 0 <= i < s2.len() && s2[i] == x;
        assert(s2.remove(i).to_multiset() =~= rest.to_multiset());
        lemma_sum_by_reordered(rest, s2.remove(i), f);
        lemma_sum_by_remove(s2, f, i);
    }
}

/// A hand's score depends only on how many cards of each rank it holds:
/// neither the order of the cards nor their suits matter, as long as the
/// running total stays under the cap.
pub proof fn lemma_score_ignores_order_and_suits(h1: Seq<Card>, h2: Seq<Card>)
    requires
        ranks(h1).to_multiset() == ranks(h2).to_multiset(),
        full_total(h1) <= TOTAL_CAP,
    ensures
        hand_score(h1) == hand_score(h2),
{
    lemma_sum_by_reordered(ranks(h1), ranks(h2), high_points());
    lemma_sum_by_reordered(ranks(h1), ranks(h2), ace_mark());
    lemma_totals(h1);
    lemma_totals(h2);
}

/// The running total of a hand is its points with every ace as 11, or 255
/// once that sum passes 255.
pub proof fn lemma_hard_total_is_capped_sum(hand: Seq<Card>)
    ensures
        hard_total(hand) == if full_total(hand) > 255 {
            255
        } else {
            full_total(hand)
        },
    decreases hand.len(),
{
    if hand.len() > 0 {
        lemma_hard_total_is_capped_sum(hand.drop_last());
        assert(ranks(hand).drop_last() =~= ranks(hand.drop_last()));
        assert(ranks(hand).last() == hand.last().rank);
    }
}

/// The score of a hand, every ace counted as 11 unless that would take the
/// hand over 21.
pub fn hand_value(hand: &[Card]) -> (v: u8)
    requires
        ace_count(hand@) <= 255,
    ensures
        v == hand_score(hand@),
{
    let mut total: u8 = 0;
    let mut aces: u8 = 0;
    let mut i: usize = 0;
    while i < hand.len()
        invariant
            i <= hand@.len(),
            total == hard_total(hand@.take(i as int)),
            aces == ace_count(hand@.take(i as int)),
            ace_count(hand@) <= 255,
        decreases hand@.len() - i,
    {
        let card = hand[i];
        proof {
            assert(hand@.take(i + 1).drop_last() =~= hand@.take(i as int));
            lemma_ace_count_prefix(hand@, i + 1);
        }
        let v = card.value();
        total = total.saturating_add(v);
        if card.rank == 1 {
            aces += 1;
        }
        i += 1;
    }
    assert(hand@.take(hand@.len() as int) =~= hand@);
    while total > 21 && aces > 0
        invariant
            soften(total as int, aces as nat) == hand_score(hand@),
        decreases aces,
    {
        total = total.saturating_sub(10);
        aces -= 1;
    }
    total
}

} // verus!
