//! What holds of the table's rules across every state: how the dealer
//! draws, what a finished hand pays, that cards are never made or lost, and
//! what it takes to bet and to be dealt in.
use vstd::multiset::Multiset;
use vstd::prelude::*;

use crate::cards::{card_points, rank_label, suit_color, Card, Suit, SuitColor};
use crate::deck::{is_full_deck, ordered_deck};
use crate::screen::{cards_shown, outcome_tone, Tone};
use crate::text::{decimal, digit_char, digits_value, signed_decimal};
use crate::hand::{
    ace_count, full_total, hand_score, hard_total, lemma_score_at_least_low_total, lemma_totals,
    low_total, ranks, soften,
};
use crate::rules::{
    blackjack_payout, confirms_bet, confirms_phrase, deal_from, deal_outcome, dealer_play, deals,
    draw_for_player, hit_from, hit_safe, key_response, natural_overflows, new_hand,
    round_deck, stand_from, stand_safe, typed_bet, Flow, Key, Outcome, Phase, Table,
};

verus! {

broadcast use {vstd::seq_lib::group_to_multiset_ensures, vstd::multiset::group_multiset_axioms};

/// A card of one of the thirteen ranks.
pub open spec fn is_real_card(card: Card) -> bool {
    1 <= card.rank <= 13
}

/// The chips a finished hand moves to the player: the bet for a win or a
/// dealer bust, minus the bet for a loss or a bust, nothing for a push, and
/// one and a half times the bet (rounded down) for a natural.
pub open spec fn chips_won(outcome: Outcome, bet: int) -> int {
    match outcome {
        Outcome::Win | Outcome::DealerBust => bet,
        Outcome::Lose | Outcome::Bust => -bet,
        Outcome::Push => 0,
        Outcome::Blackjack => bet + bet / 2,
    }
}

/// All cards on the table: the deck and both hands.
pub open spec fn cards_on_table(t: Table) -> Multiset<Card> {
    t.deck.to_multiset().add(t.player.to_multiset()).add(t.dealer.to_multiset())
}

/// The dealer takes cards from the top of the deck, in order, only while
/// the dealer's score is below 17, and stops at 17 or more, a soft 17
/// included; a dealer already at 17 or more draws nothing.
pub proof fn lemma_dealer_draws_only_below_seventeen(dealer: Seq<Card>, deck: Seq<Card>)
    ensures
        dealer_play(dealer, deck).0.len() >= dealer.len(),
        dealer_play(dealer, deck).0.take(dealer.len() as int) == dealer,
        dealer_play(dealer, deck).0.len() + dealer_play(dealer, deck).1.len() == dealer.len()
            + deck.len(),
        dealer_play(dealer, deck).1 == deck.take(dealer_play(dealer, deck).1.len() as int),
        forall|k: int|
            0 <= k < dealer_play(dealer, deck).0.len() - dealer.len() ==> #[trigger] dealer_play(
                dealer,
                deck,
            ).0[dealer.len() + k] == deck[deck.len() - 1 - k],
        forall|j: int|
            dealer.len() <= j < dealer_play(dealer, deck).0.len() ==> hand_score(
                #[trigger] dealer_play(dealer, deck).0.take(j),
            ) < 17,
        hand_score(dealer_play(dealer, deck).0) >= 17 || dealer_play(
            dealer,
            deck,
        ).1.len() == 0,
        hand_score(dealer) >= 17 ==> dealer_play(dealer, deck) == (dealer, deck),
    decreases deck.len(),
{
    if hand_score(dealer) >= 17 || deck.len() == 0 {
        assert(dealer.take(dealer.len() as int) =~= dealer);
        assert(deck.take(deck.len() as int) =~= deck);
    } else {
        let next = dealer.push(deck.last());
        let rest = deck.drop_last();
        lemma_dealer_draws_only_below_seventeen(next, rest);
        let hand = dealer_play(next, rest).0;
        let left = dealer_play(next, rest).1;
        assert(dealer_play(dealer, deck) == dealer_play(next, rest));
        assert(hand.take(dealer.len() as int) =~= hand.take(next.len() as int).take(
            dealer.len() as int,
        ));
        assert(next.take(dealer.len() as int) =~= dealer);
        assert(left =~= deck.take(left.len() as int));
        assert forall|k: int| 0 <= k < hand.len() - dealer.len() implies #[trigger] hand[dealer.len()
            + k] == deck[deck.len() - 1 - k] by {
            if k == 0 {
                assert(hand[dealer.len() as int] == hand.take(next.len() as int)[dealer.len() as int]);
            } else {
                assert(hand[next.len() + (k - 1)] == rest[rest.len() - 1 - (k - 1)]);
            }
        }
        assert forall|j: int| dealer.len() <= j < hand.len() implies hand_score(
            #[trigger] hand.take(j),
        ) < 17 by {
            if j == dealer.len() {
                assert(hand.take(j) =~= dealer);
            }
        }
    }
}

/// When the player stands, the outcome follows from the two scores: the
/// dealer busts over 21; otherwise the higher score wins and equal scores
/// push.
pub proof fn lemma_stand_outcome_follows_scores(t: Table)
    requires
        t.phase == Phase::Playing,
    ensures
        ({
            let pv = hand_score(t.player);
            let dv = hand_score(dealer_play(t.dealer, t.deck).0);
            let o = stand_from(t).outcome;
            &&& (o == Some(Outcome::DealerBust)) <==> dv > 21
            &&& (o == Some(Outcome::Win)) <==> (dv <= 21 && pv > dv)
            &&& (o == Some(Outcome::Lose)) <==> (dv <= 21 && dv > pv)
            &&& (o == Some(Outcome::Push)) <==> (dv <= 21 && pv == dv)
        }),
        ({
            let pv = hand_score(t.player);
            let dealer = dealer_play(t.dealer, t.deck).0;
            let dv = hand_score(dealer);
            let s = stand_from(t);
            &&& s.phase == Phase::Result
            &&& s.player == t.player
            &&& s.dealer == dealer
            &&& s.bet == t.bet
            &&& dv > 21 ==> s.chips == t.chips + t.bet && s.message == "Dealer busts ("@ + decimal(
                dv as nat,
            ) + ")! +"@ + signed_decimal(t.bet) + " chips"@
            &&& (dv <= 21 && pv > dv) ==> s.chips == t.chips + t.bet && s.message == "You win! ("@
                + decimal(pv as nat) + " vs "@ + decimal(dv as nat) + ") +"@ + signed_decimal(t.bet)
                + " chips"@
            &&& (dv <= 21 && dv > pv) ==> s.chips == t.chips - t.bet && s.message == "Dealer wins ("@
                + decimal(dv as nat) + " vs "@ + decimal(pv as nat) + ") -"@ + signed_decimal(t.bet)
                + " chips"@
            &&& (dv <= 21 && pv == dv) ==> s.chips == t.chips && s.message == "Push! ("@ + decimal(
                pv as nat,
            ) + ") Bet returned"@
        }),
{
}

/// Every hand that ends moves exactly what its outcome pays, whether it
/// ends by standing, by a hit, or at the deal with a natural; a hand that
/// goes on moves no chips.
pub proof fn lemma_finished_hands_pay_by_outcome(t: Table, u: Table, deck: Seq<Card>)
    requires
        t.phase == Phase::Playing,
    ensures
        stand_from(t).phase == Phase::Result,
        stand_from(t).outcome matches Some(o) && stand_from(t).chips == t.chips + chips_won(
            o,
            t.bet,
        ),
        hit_from(t).phase == Phase::Result ==> (hit_from(t).outcome matches Some(o)
            && hit_from(t).chips == t.chips + chips_won(o, t.bet)),
        hit_from(t).phase != Phase::Result ==> hit_from(t).chips == t.chips,
        deal_from(u, deck).phase == Phase::Result ==> (deal_from(u, deck).outcome matches Some(o)
            && deal_from(u, deck).chips == u.chips + chips_won(o, u.bet)),
        deal_from(u, deck).phase != Phase::Result ==> deal_from(u, deck).chips == u.chips,
{
    let drawn = draw_for_player(t);
    assert(drawn.phase == Phase::Playing);
}

/// A natural pays one and a half times the bet, rounded down: three times
/// the bet, halved.
pub proof fn lemma_natural_pays_one_and_a_half(bet: int)
    requires
        bet >= 0,
    ensures
        blackjack_payout(bet) == (3 * bet) / 2,
        bet % 2 == 0 ==> 2 * blackjack_payout(bet) == 3 * bet,
{
}

/// Standing moves cards from the deck to the dealer and no card appears or
/// disappears.
pub proof fn lemma_stand_keeps_cards(t: Table)
    ensures
        cards_on_table(stand_from(t)) == cards_on_table(t),
{
    if t.phase == Phase::Playing {
        lemma_dealer_play_keeps_cards(t.dealer, t.deck);
        let hand = dealer_play(t.dealer, t.deck).0;
        let rest = dealer_play(t.dealer, t.deck).1;
        let s = stand_from(t);
        assert(s.deck == rest && s.dealer == hand && s.player == t.player);
        assert forall|c: Card| #[trigger] cards_on_table(s).count(c) == cards_on_table(t).count(c) by {
            assert(hand.to_multiset().add(rest.to_multiset()).count(c) == t.dealer.to_multiset().add(
                t.deck.to_multiset(),
            ).count(c));
        }
        assert(cards_on_table(s) =~= cards_on_table(t));
    }
}

/// The dealer's draws keep the cards of hand and deck together.
pub proof fn lemma_dealer_play_keeps_cards(dealer: Seq<Card>, deck: Seq<Card>)
    ensures
        dealer_play(dealer, deck).0.to_multiset().add(dealer_play(dealer, deck).1.to_multiset())
            == dealer.to_multiset().add(deck.to_multiset()),
    decreases deck.len(),
{
    if !(hand_score(dealer) >= 17 || deck.len() == 0) {
        let next = dealer.push(deck.last());
        let rest = deck.drop_last();
        lemma_dealer_play_keeps_cards(next, rest);
        assert(rest.push(deck.last()) =~= deck);
        assert(next.to_multiset().add(rest.to_multiset()) =~= dealer.to_multiset().add(
            deck.to_multiset(),
        ));
    }
}

/// Hitting moves one card from the deck to the player (and, at 21, the
/// dealer's draws) and no card appears or disappears.
pub proof fn lemma_hit_keeps_cards(t: Table)
    requires
        t.phase == Phase::Playing ==> t.deck.len() > 0,
    ensures
        cards_on_table(hit_from(t)) == cards_on_table(t),
{
    if t.phase == Phase::Playing {
        let drawn = draw_for_player(t);
        assert(t.deck.drop_last().push(t.deck.last()) =~= t.deck);
        assert(cards_on_table(drawn) =~= cards_on_table(t));
        lemma_stand_keeps_cards(drawn);
    }
}

/// A deal puts on the table exactly the cards of the deck it deals from:
/// four in the two hands and the rest in the deck.
pub proof fn lemma_deal_keeps_cards(t: Table, deck: Seq<Card>)
    requires
        deck.len() >= 4,
    ensures
        cards_on_table(deal_from(t, deck)) == deck.to_multiset(),
{
    let n = deck.len();
    let base = deck.take(n - 4);
    assert(deck =~= base.push(deck[n - 4]).push(deck[n - 3]).push(deck[n - 2]).push(deck[n - 1]));
    assert(seq![deck[n - 1], deck[n - 3]] =~= Seq::<Card>::empty().push(deck[n - 1]).push(
        deck[n - 3],
    ));
    assert(seq![deck[n - 2], deck[n - 4]] =~= Seq::<Card>::empty().push(deck[n - 2]).push(
        deck[n - 4],
    ));
    assert(cards_on_table(deal_from(t, deck)) =~= deck.to_multiset());
}

/// Every card of a full deck is a real card.
pub proof fn lemma_full_deck_has_real_cards(deck: Seq<Card>)
    requires
        is_full_deck(deck),
    ensures
        forall|i: int| 0 <= i < deck.len() ==> is_real_card(#[trigger] deck[i]),
{
    assert forall|i: int| 0 <= i < deck.len() implies is_real_card(#[trigger] deck[i]) by {
        let c = deck[i];
        assert(deck.contains(c));
        assert(deck.to_multiset().count(c) > 0);
        assert(ordered_deck().to_multiset().count(c) > 0);
        assert(ordered_deck().contains(c));
        let j = choose|j: int| 0 <= j < ordered_deck().len() && ordered_deck()[j] == c;
        assert(1 <= j % 13 + 1 <= 13);
    }
}

/// Two real cards never score over 21 (two aces score 12).
pub proof fn lemma_two_cards_never_bust(a: Card, b: Card)
    requires
        is_real_card(a),
        is_real_card(b),
    ensures
        hand_score(seq![a, b]) <= 21,
{
    let h = seq![a, b];
    assert(h.drop_last() =~= seq![a]);
    assert(seq![a].drop_last() =~= Seq::<Card>::empty());
    assert(hard_total(Seq::<Card>::empty()) == 0);
    assert(ace_count(Seq::<Card>::empty()) == 0);
    assert(hard_total(seq![a]) == crate::cards::card_points(a.rank));
    assert(ace_count(seq![a]) == if a.rank == 1 { 1nat } else { 0nat });
    if a.rank == 1 && b.rank == 1 {
        assert(soften(22, 2) == soften(12, 1));
    }
}

/// Play goes on only while the player's score is below 21: a deal from a
/// deck of real cards, or a hit during play, that leaves the hand in play
/// leaves the player under 21.
pub proof fn lemma_play_goes_on_only_below_twenty_one(t: Table, u: Table, deck: Seq<Card>)
    requires
        t.phase == Phase::Playing,
        deck.len() >= 4,
        forall|i: int| 0 <= i < deck.len() ==> is_real_card(#[trigger] deck[i]),
    ensures
        hit_from(t).phase == Phase::Playing ==> hand_score(hit_from(t).player) < 21,
        deal_from(u, deck).phase == Phase::Playing ==> hand_score(deal_from(u, deck).player) < 21,
{
    lemma_two_cards_never_bust(deck[deck.len() - 1], deck[deck.len() - 3]);
    let drawn = draw_for_player(t);
    assert(drawn.phase == Phase::Playing);
}

/// Submitting a typed bet deals a hand at that bet: the bet is the typed
/// number, the field is emptied, each side holds two cards, and the hand
/// is in play or already over on a natural.
pub proof fn lemma_typed_bet_deals(t: Table, t2: Table, settled: bool, b: int)
    requires
        confirms_bet(t, t2, settled),
        typed_bet(t) == Some(b),
    ensures
        t2.bet == b,
        t2.bet_input.len() == 0,
        t2.player.len() == 2,
        t2.dealer.len() == 2,
        t2.phase == Phase::Playing || t2.phase == Phase::Result,
{
    let u = Table { bet: b, bet_input: Seq::empty(), ..t };
    let shoe = choose|shoe: Seq<Card>|
        shoe.len() == 52 && is_full_deck(shoe) && t2 == #[trigger] deal_outcome(
            u,
            round_deck(u, shoe),
        ) && settled == !natural_overflows(u, round_deck(u, shoe));
    assert(round_deck(u, shoe).len() >= 4);
}

/// Cards are dealt after the payment step only for the exact phrase.
pub proof fn lemma_deal_only_for_the_phrase(t: Table, t2: Table, settled: bool)
    requires
        confirms_phrase(t, t2, settled),
        t2.phase == Phase::Playing || t2.phase == Phase::Result,
        t.phase == Phase::Verification,
    ensures
        t.verification_input == "I love blackjack"@,
        deals(Table { verification_input: Seq::empty(), ..t }, t2, settled),
{
}

/// A deal from a freshly shuffled deck, or from a deck of real cards, leaves
/// the player in play only under 21.
pub proof fn lemma_fresh_deal_in_play_below_twenty_one(t: Table, t2: Table, settled: bool)
    requires
        deals(t, t2, settled),
        forall|i: int| 0 <= i < t.deck.len() ==> is_real_card(#[trigger] t.deck[i]),
    ensures
        t2.phase == Phase::Playing ==> hand_score(t2.player) < 21,
{
    let shoe = choose|shoe: Seq<Card>|
        shoe.len() == 52 && is_full_deck(shoe) && t2 == #[trigger] deal_outcome(
            t,
            round_deck(t, shoe),
        ) && settled == !natural_overflows(t, round_deck(t, shoe));
    lemma_full_deck_has_real_cards(shoe);
    let d = round_deck(t, shoe);
    lemma_play_goes_on_only_below_twenty_one(Table { phase: Phase::Playing, ..t }, t, d);
}

/// Every card of `cards` is a real card.
pub open spec fn all_real(cards: Seq<Card>) -> bool {
    forall|i: int| 0 <= i < cards.len() ==> is_real_card(#[trigger] cards[i])
}

/// Drawing one more real card adds at least one low point and at most
/// eleven points.
proof fn lemma_draw_totals(hand: Seq<Card>, card: Card)
    requires
        is_real_card(card),
    ensures
        low_total(hand.push(card)) >= low_total(hand) + 1,
        full_total(hand.push(card)) <= full_total(hand) + 11,
{
    assert(ranks(hand.push(card)).drop_last() =~= ranks(hand));
    assert(ranks(hand.push(card)).last() == card.rank);
}

/// The dealer, holding real cards below the cap, finishes with 17 or more
/// whenever the deck's real cards number at least 17 less the dealer's low
/// points; the draws plus those points never pass 17.
proof fn lemma_dealer_finishes_from(dealer: Seq<Card>, deck: Seq<Card>)
    requires
        all_real(dealer),
        all_real(deck),
        full_total(dealer) <= 255,
        low_total(dealer) + deck.len() >= 17,
    ensures
        hand_score(dealer_play(dealer, deck).0) >= 17,
        dealer_play(dealer, deck).0.len() == dealer.len() || dealer_play(dealer, deck).0.len()
            - dealer.len() + low_total(dealer) <= 17,
    decreases deck.len(),
{
    if hand_score(dealer) < 17 {
        lemma_score_at_least_low_total(dealer);
        lemma_totals(dealer);
        let card = deck.last();
        assert(is_real_card(deck[deck.len() - 1]));
        let next = dealer.push(card);
        let rest = deck.drop_last();
        lemma_draw_totals(dealer, card);
        assert(all_real(next)) by {
            assert forall|i: int| 0 <= i < next.len() implies is_real_card(#[trigger] next[i]) by {
                if i < dealer.len() {
                    assert(next[i] == dealer[i]);
                }
            }
        }
        assert(all_real(rest)) by {
            assert forall|i: int| 0 <= i < rest.len() implies is_real_card(#[trigger] rest[i]) by {
                assert(rest[i] == deck[i]);
            }
        }
        lemma_dealer_finishes_from(next, rest);
    }
}

/// With at least 17 real cards in the deck, a dealer holding real cards
/// (below the cap) always reaches 17 or more before the deck runs out, in
/// at most 17 draws.
pub proof fn lemma_seventeen_cards_let_the_dealer_finish(dealer: Seq<Card>, deck: Seq<Card>)
    requires
        all_real(dealer),
        all_real(deck),
        full_total(dealer) <= 255,
        deck.len() >= 17,
    ensures
        hand_score(dealer_play(dealer, deck).0) >= 17,
        dealer_play(dealer, deck).0.len() <= dealer.len() + 17,
{
    lemma_totals(dealer);
    lemma_dealer_finishes_from(dealer, deck);
}

/// With enough real cards in the deck and room in the chip count for one
/// bet either way, play cannot run out of cards or overflow: standing is
/// safe with 17 cards, hitting (which may stand on 21) with 18.
pub proof fn lemma_enough_cards_make_play_safe(t: Table)
    requires
        t.phase == Phase::Playing,
        all_real(t.deck),
        all_real(t.dealer),
        full_total(t.dealer) <= 255,
        0 <= t.bet,
        i32::MIN + t.bet <= t.chips,
        t.chips + t.bet <= i32::MAX,
    ensures
        t.deck.len() >= 17 ==> stand_safe(t),
        t.deck.len() >= 18 ==> hit_safe(t),
{
    if t.deck.len() >= 17 {
        lemma_seventeen_cards_let_the_dealer_finish(t.dealer, t.deck);
    }
    if t.deck.len() >= 18 {
        let drawn = draw_for_player(t);
        assert(all_real(drawn.deck)) by {
            assert forall|i: int| 0 <= i < drawn.deck.len() implies is_real_card(
                #[trigger] drawn.deck[i],
            ) by {
                assert(drawn.deck[i] == t.deck[i]);
            }
        }
        lemma_seventeen_cards_let_the_dealer_finish(drawn.dealer, drawn.deck);
        assert(stand_safe(drawn));
    }
}

/// Hitting to exactly 21 stands at once and never loses: the hand is won,
/// pushed or won on a dealer bust, and the chips do not go down.
pub proof fn lemma_hit_to_twenty_one_never_loses(t: Table)
    requires
        t.phase == Phase::Playing,
        t.bet >= 0,
        hand_score(draw_for_player(t).player) == 21,
    ensures
        hit_from(t) == stand_from(draw_for_player(t)),
        hit_from(t).phase == Phase::Result,
        hit_from(t).outcome == Some(Outcome::Win) || hit_from(t).outcome == Some(
            Outcome::DealerBust,
        ) || hit_from(t).outcome == Some(Outcome::Push),
        hit_from(t).chips >= t.chips,
{
    let drawn = draw_for_player(t);
    assert(drawn.phase == Phase::Playing);
    assert(drawn.player == t.player.push(t.deck.last()));
}

/// What a card is worth before any ace is softened: an ace 11, a numbered
/// card (2 to 10) exactly its rank, a jack, queen or king 10.
pub proof fn lemma_card_points_by_rank(rank: u8)
    ensures
        rank == 1 ==> card_points(rank) == 11,
        2 <= rank <= 10 ==> card_points(rank) == rank,
        11 <= rank <= 13 ==> card_points(rank) == 10,
{
}

/// A numbered card is labelled with its rank in decimal; an ace `A`, the
/// face cards `J`, `Q` and `K`, and any other rank `?`.
pub proof fn lemma_rank_label_by_rank(rank: u8)
    ensures
        2 <= rank <= 10 ==> rank_label(rank) == decimal(rank as nat),
        rank == 1 ==> rank_label(rank) == "A"@,
        rank == 11 ==> rank_label(rank) == "J"@,
        rank == 12 ==> rank_label(rank) == "Q"@,
        rank == 13 ==> rank_label(rank) == "K"@,
        (rank == 0 || rank > 13) ==> rank_label(rank) == "?"@,
{
    if 2 <= rank <= 9 {
        assert(decimal(rank as nat) == seq![digit_char(rank as int)]);
    }
    if rank == 10 {
        assert(decimal(1) == seq!['1']);
        assert(decimal(10) == seq!['1'].push('0'));
        reveal_strlit("10");
    }
    reveal_strlit("2");
    reveal_strlit("3");
    reveal_strlit("4");
    reveal_strlit("5");
    reveal_strlit("6");
    reveal_strlit("7");
    reveal_strlit("8");
    reveal_strlit("9");
}

/// Hearts and diamonds are red, spades and clubs white.
pub proof fn lemma_red_suits(suit: Suit)
    ensures
        (suit_color(suit) == SuitColor::Red) <==> (suit == Suit::Hearts || suit == Suit::Diamonds),
        (suit_color(suit) == SuitColor::White) <==> (suit == Suit::Spades || suit == Suit::Clubs),
{
}

/// Reading back a number written in decimal gives the number.
pub proof fn lemma_decimal_reads_back(n: nat)
    ensures
        digits_value(decimal(n)) == n,
    decreases n,
{
    if n < 10 {
        assert(seq![digit_char(n as int)].drop_last() =~= Seq::<char>::empty());
        assert(digits_value(Seq::<char>::empty()) == 0);
    } else {
        lemma_decimal_reads_back(n / 10);
        let d = n % 10;
        assert(decimal(n).drop_last() =~= decimal(n / 10));
        assert(decimal(n).last() == digit_char(d as int));
        assert(digit_char(d as int) as int - '0' as int == d);
    }
}

/// A deal gives each side two cards. From a deck of ten or more it takes
/// the top four, alternately, the player first; from a lower deck it deals
/// from a newly shuffled full deck instead, leaving 48 cards. A player
/// natural ends the hand as a blackjack and pays one and a half times the
/// bet, rounded down, unless that payout overflows the chip count, in which
/// case the deal stops unpaid; any other opening leaves the hand in play
/// with nothing paid. The bet and the typed fields are untouched.
pub proof fn lemma_deal_deals_two_each_and_pays_naturals(t: Table, t2: Table, settled: bool)
    requires
        deals(t, t2, settled),
    ensures
        t2.player.len() == 2,
        t2.dealer.len() == 2,
        t.deck.len() >= 10 ==> t2.player == seq![t.deck[t.deck.len() - 1], t.deck[t.deck.len() - 3]]
            && t2.dealer == seq![t.deck[t.deck.len() - 2], t.deck[t.deck.len() - 4]] && t2.deck
            == t.deck.take(t.deck.len() - 4),
        t.deck.len() < 10 ==> t2.deck.len() == 48 && cards_on_table(t2)
            == ordered_deck().to_multiset(),
        hand_score(t2.player) == 21 ==> t2.phase == Phase::Result && t2.outcome == Some(
            Outcome::Blackjack,
        ) && (settled <==> t.chips + t.bet + t.bet / 2 <= i32::MAX),
        hand_score(t2.player) == 21 && settled ==> t2.chips == t.chips + t.bet + t.bet / 2
            && t2.message == "BLACKJACK! +"@ + signed_decimal(t.bet + t.bet / 2) + " chips"@,
        hand_score(t2.player) == 21 && !settled ==> t2.chips == t.chips,
        hand_score(t2.player) != 21 ==> settled && t2.phase == Phase::Playing && t2.outcome is None
            && t2.chips == t.chips && t2.message == "Hit or Stand?"@,
        t2.bet == t.bet,
        t2.bet_input == t.bet_input,
        t2.verification_input == t.verification_input,
        t2.current_balance == t.current_balance,
{
    let shoe = choose|shoe: Seq<Card>|
        shoe.len() == 52 && is_full_deck(shoe) && t2 == #[trigger] deal_outcome(
            t,
            round_deck(t, shoe),
        ) && settled == !natural_overflows(t, round_deck(t, shoe));
    let d = round_deck(t, shoe);
    lemma_deal_keeps_cards(t, d);
    if t.deck.len() < 10 {
        assert(cards_on_table(t2) =~= cards_on_table(deal_from(t, d)));
        assert(shoe.to_multiset() == ordered_deck().to_multiset());
    }
}

/// Hitting during play puts the top card of the deck on the player's hand.
/// Under 21 the hand stays in play with nothing else changed; over 21 it is
/// lost at once and the bet paid; at 21 the player stands. Outside play a
/// hit changes nothing.
pub proof fn lemma_hit_draws_the_top_card(t: Table)
    ensures
        t.phase != Phase::Playing ==> hit_from(t) == t,
        t.phase == Phase::Playing ==> hit_from(t).player == t.player.push(t.deck.last()),
        t.phase == Phase::Playing && hand_score(t.player.push(t.deck.last())) < 21 ==> hit_from(t)
            == (Table { player: t.player.push(t.deck.last()), deck: t.deck.drop_last(), ..t }),
        t.phase == Phase::Playing && hand_score(t.player.push(t.deck.last())) > 21 ==> ({
            let h = hit_from(t);
            let v = hand_score(t.player.push(t.deck.last()));
            &&& h.phase == Phase::Result
            &&& h.outcome == Some(Outcome::Bust)
            &&& h.chips == t.chips - t.bet
            &&& h.deck == t.deck.drop_last()
            &&& h.dealer == t.dealer
            &&& h.message == "Bust! ("@ + decimal(v as nat) + ") -"@ + signed_decimal(t.bet)
                + "  chips"@
        }),
{
    let drawn = draw_for_player(t);
    if t.phase == Phase::Playing {
        assert(drawn.phase == Phase::Playing);
    }
}

/// Standing outside play changes nothing.
pub proof fn lemma_stand_only_in_play(t: Table)
    ensures
        t.phase != Phase::Playing ==> stand_from(t) == t,
{
}

/// During play `h` or `H` hits, `s` or `S` stands, `q` or `Q` quits, and
/// any other key does nothing.
pub proof fn lemma_keys_during_play(t: Table, key: Key, t2: Table, flow: Flow)
    requires
        key_response(t, key, t2, flow),
        t.phase == Phase::Playing,
    ensures
        (key == Key::Char('h') || key == Key::Char('H')) ==> flow == Flow::Continue && t2
            == hit_from(t),
        (key == Key::Char('s') || key == Key::Char('S')) ==> flow == Flow::Continue && t2
            == stand_from(t),
        (key == Key::Char('q') || key == Key::Char('Q')) ==> flow == Flow::Quit && t2 == t,
        !(key == Key::Char('h') || key == Key::Char('H') || key == Key::Char('s') || key
            == Key::Char('S') || key == Key::Char('q') || key == Key::Char('Q')) ==> flow
            == Flow::Continue && t2 == t,
{
}

/// While betting a digit is typed at the end of the bet while it has fewer
/// than five, Backspace erases the last one, Enter deals at the typed bet,
/// `q` or `Q` quits and any other key does nothing.
pub proof fn lemma_keys_while_betting(t: Table, key: Key, t2: Table, flow: Flow)
    requires
        key_response(t, key, t2, flow),
        t.phase == Phase::Betting,
    ensures
        (key == Key::Char('q') || key == Key::Char('Q')) ==> flow == Flow::Quit && t2 == t,
        key matches Key::Char(c) ==> ('0' <= c <= '9' ==> flow == Flow::Continue && t2 == (Table {
            bet_input: if t.bet_input.len() < 5 {
                t.bet_input.push(c)
            } else {
                t.bet_input
            },
            ..t
        })),
        key matches Key::Char(c) ==> (!('0' <= c <= '9') && c != 'q' && c != 'Q' ==> flow
            == Flow::Continue && t2 == t),
        key == Key::Backspace ==> flow == Flow::Continue && t2 == (Table {
            bet_input: if t.bet_input.len() == 0 {
                t.bet_input
            } else {
                t.bet_input.drop_last()
            },
            ..t
        }),
        key == Key::Other ==> flow == Flow::Continue && t2 == t,
        key == Key::Enter ==> flow != Flow::Quit && confirms_bet(t, t2, flow == Flow::Continue),
{
}

/// After a hand, `n` or `N` starts a new one only for a player with chips:
/// the chips are kept, the bet and both hands are cleared, play returns to
/// betting with the greeting, the deck stays and a new balance between
/// 1,000 and 1,000,000 is claimed. A player without chips gets nothing.
pub proof fn lemma_new_hand_keeps_chips(t: Table, key: Key, t2: Table, flow: Flow)
    requires
        key_response(t, key, t2, flow),
        t.phase == Phase::Result || t.phase == Phase::DealerTurn,
        key == Key::Char('n') || key == Key::Char('N'),
    ensures
        flow == Flow::Continue,
        t.chips > 0 ==> t2.chips == t.chips && t2.phase == Phase::Betting && t2.bet == 0
            && t2.player.len() == 0 && t2.dealer.len() == 0 && t2.outcome is None && t2.deck
            == t.deck && t2.message == "Place your bet to start!"@ && 1000 <= t2.current_balance
            <= 1_000_000 && t2.bet_input == t.bet_input && t2.verification_input
            == t.verification_input,
        t.chips <= 0 ==> t2 == t,
{
    if t.chips > 0 {
        let b = choose|b: int| 1000 <= b <= 1_000_000 && t2 == #[trigger] new_hand(t, b);
    }
}

/// The bet, once typed and submitted, is the number the digits spell: a
/// typed bet of the decimal digits of `n` deals at bet `n`.
pub proof fn lemma_typed_digits_are_the_bet(t: Table, t2: Table, settled: bool, n: nat)
    requires
        t.bet_input == decimal(n),
        confirms_bet(t, t2, settled),
    ensures
        t2.bet == n,
{
    lemma_decimal_reads_back(n);
    assert(decimal(n).len() > 0);
    lemma_typed_bet_deals(t, t2, settled, n as int);
}

/// While paying, an ASCII letter or digit, a space, `-` or `?` is typed at
/// the end of the phrase while it has fewer than forty characters (except
/// `q` and `Q`, which quit), Backspace erases the last one, Enter submits
/// the phrase and any other key does nothing.
pub proof fn lemma_keys_while_paying(t: Table, key: Key, t2: Table, flow: Flow)
    requires
        key_response(t, key, t2, flow),
        t.phase == Phase::Verification,
    ensures
        (key == Key::Char('q') || key == Key::Char('Q')) ==> flow == Flow::Quit && t2 == t,
        key matches Key::Char(c) ==> (c != 'q' && c != 'Q' ==> flow == Flow::Continue && t2 == (
        Table {
            verification_input: if (('0' <= c <= '9') || ('a' <= c <= 'z') || ('A' <= c <= 'Z')
                || c == ' ' || c == '-' || c == '?') && t.verification_input.len() < 40 {
                t.verification_input.push(c)
            } else {
                t.verification_input
            },
            ..t
        })),
        key == Key::Backspace ==> flow == Flow::Continue && t2 == (Table {
            verification_input: if t.verification_input.len() == 0 {
                t.verification_input
            } else {
                t.verification_input.drop_last()
            },
            ..t
        }),
        key == Key::Other ==> flow == Flow::Continue && t2 == t,
        key == Key::Enter ==> flow != Flow::Quit && confirms_phrase(t, t2, flow == Flow::Continue),
{
}

/// The payment phrase deals only when it is exactly `I love blackjack`;
/// any other phrase is answered with a refusal and changes nothing else.
pub proof fn lemma_phrase_must_match(t: Table, t2: Table, settled: bool)
    requires
        confirms_phrase(t, t2, settled),
    ensures
        t.verification_input != "I love blackjack"@ ==> settled && t2 == (Table {
            message: "Verification failed. Exact phrase required."@,
            ..t
        }),
        t.verification_input == "I love blackjack"@ ==> t2.player.len() == 2 && t2.dealer.len()
            == 2 && t2.verification_input.len() == 0,
{
    if t.verification_input == "I love blackjack"@ {
        lemma_deal_deals_two_each_and_pays_naturals(
            Table { verification_input: Seq::empty(), ..t },
            t2,
            settled,
        );
    }
}

/// The colour of the message follows the outcome: green for a win of any
/// kind, red for a loss, yellow for a push and plain before a hand ends.
pub proof fn lemma_message_tone_by_outcome(outcome: Option<Outcome>)
    ensures
        (outcome_tone(outcome) == Tone::Good) <==> (outcome == Some(Outcome::Win) || outcome == Some(
            Outcome::Blackjack,
        ) || outcome == Some(Outcome::DealerBust)),
        (outcome_tone(outcome) == Tone::Bad) <==> (outcome == Some(Outcome::Lose) || outcome
            == Some(Outcome::Bust)),
        (outcome_tone(outcome) == Tone::Even) <==> outcome == Some(Outcome::Push),
        (outcome_tone(outcome) == Tone::Plain) <==> outcome is None,
{
}

/// Cards of a hand are placed side by side as long as each ends within the
/// width: the first card always, and a later card exactly when it ends
/// within the width, every card taking eight columns.
pub proof fn lemma_cards_shown_fit(width: int, count: int)
    requires
        0 <= width,
        0 <= count,
    ensures
        count == 0 ==> cards_shown(width, count) == 0,
        count > 0 ==> 1 <= cards_shown(width, count) <= count,
        forall|i: int|
            1 <= i < cards_shown(width, count) ==> #[trigger] (8 * i) + 7 <= width,
        0 < cards_shown(width, count) < count ==> 8 * cards_shown(width, count) + 7 > width,
{
    let k = cards_shown(width, count);
    if width >= 15 && count > 0 {
        let q = (width - 7) / 8;
        assert(8 * q + 7 <= width && 8 * (q + 1) + 7 > width) by (nonlinear_arith)
            requires
                q == (width - 7) / 8,
                width >= 15,
        ;
        assert forall|i: int| 1 <= i < k implies #[trigger] (8 * i) + 7 <= width by {
            assert(i <= q);
        }
    }
}

} // verus!
