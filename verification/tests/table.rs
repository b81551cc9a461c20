use blackjack::cards::{Card, Suit};
use blackjack::game::Game;
use blackjack::rules::{Flow, Key, Outcome, Phase};
use blackjack::screen::Tone;

fn c(rank: u8) -> Card {
    Card { rank, suit: Suit::Hearts }
}

/// A deck whose top (last) card is the first of `top`.
fn deck_with_top(top: &[u8], filler: usize) -> Vec<Card> {
    let mut deck: Vec<Card> = (0..filler).map(|_| c(2)).collect();
    for &r in top.iter().rev() {
        deck.push(c(r));
    }
    deck
}

fn table(deck: Vec<Card>, phase: Phase) -> Game {
    Game {
        deck,
        player: Vec::new(),
        dealer: Vec::new(),
        chips: 500,
        bet: 1000,
        phase,
        outcome: None,
        message: String::from("Place your bet to start!"),
        bet_input: String::new(),
        verification_input: String::new(),
        current_balance: 1000,
    }
}

fn playing(player: &[u8], dealer: &[u8], deck_top: &[u8]) -> Game {
    let mut g = table(deck_with_top(deck_top, 0), Phase::Playing);
    g.player = player.iter().map(|&r| c(r)).collect();
    g.dealer = dealer.iter().map(|&r| c(r)).collect();
    g.message = String::from("Hit or Stand?");
    g
}

fn ranks(cards: &[Card]) -> Vec<u8> {
    cards.iter().map(|c| c.rank).collect()
}

#[test]
fn new_table_starts_with_500_chips() {
    let g = Game::new();
    assert_eq!(g.chips, 500);
    assert_eq!(g.bet, 0);
    assert_eq!(g.phase, Phase::Betting);
    assert_eq!(g.outcome, None);
    assert_eq!(g.message, "Place your bet to start!");
    assert_eq!(g.deck.len(), 52);
    assert!(g.player.is_empty() && g.dealer.is_empty());
    assert!(g.bet_input.is_empty() && g.verification_input.is_empty());
    assert!((1_000..=1_000_000).contains(&g.current_balance));
}

#[test]
fn roll_keeps_balance_in_range() {
    let mut g = table(deck_with_top(&[], 20), Phase::Betting);
    for _ in 0..50 {
        g.roll_fake_balance();
        assert!((1_000..=1_000_000).contains(&g.current_balance));
    }
    assert_eq!(g.chips, 500);
}

#[test]
fn deal_alternates_from_the_top() {
    let mut g = table(deck_with_top(&[5, 6, 7, 8], 10), Phase::Verification);
    g.deal();
    assert_eq!(ranks(&g.player), vec![5, 7]);
    assert_eq!(ranks(&g.dealer), vec![6, 8]);
    assert_eq!(g.deck.len(), 10);
    assert_eq!(g.phase, Phase::Playing);
    assert_eq!(g.outcome, None);
    assert_eq!(g.message, "Hit or Stand?");
    assert_eq!(g.chips, 500);
}

#[test]
fn natural_pays_one_and_a_half() {
    let mut g = table(deck_with_top(&[1, 6, 13, 8], 10), Phase::Verification);
    assert!(g.deal());
    assert_eq!(g.phase, Phase::Result);
    assert_eq!(g.outcome, Some(Outcome::Blackjack));
    assert_eq!(g.chips, 2000);
    assert_eq!(g.message, "BLACKJACK! +1500 chips");
}

#[test]
fn natural_payout_rounds_down() {
    let mut g = table(deck_with_top(&[1, 6, 13, 8], 10), Phase::Verification);
    g.bet = 1001;
    g.deal();
    assert_eq!(g.chips, 500 + 1501);
    assert_eq!(g.message, "BLACKJACK! +1501 chips");
}

#[test]
fn low_deck_is_replaced_before_dealing() {
    let mut g = table(deck_with_top(&[], 9), Phase::Verification);
    g.player = vec![c(3)];
    g.deal();
    assert_eq!(g.deck.len(), 48);
    assert_eq!(g.player.len(), 2);
    assert_eq!(g.dealer.len(), 2);
}

#[test]
fn hit_bust_loses_the_bet() {
    let mut g = playing(&[13, 12], &[9, 8], &[5]);
    g.hit();
    assert_eq!(g.phase, Phase::Result);
    assert_eq!(g.outcome, Some(Outcome::Bust));
    assert_eq!(g.chips, -500);
    assert_eq!(g.message, "Bust! (25) -1000  chips");
    assert_eq!(g.deck.len(), 0);
}

#[test]
fn hit_below_21_keeps_playing() {
    let mut g = playing(&[2, 3], &[9, 8], &[4]);
    g.hit();
    assert_eq!(g.phase, Phase::Playing);
    assert_eq!(ranks(&g.player), vec![2, 3, 4]);
    assert_eq!(g.message, "Hit or Stand?");
}

#[test]
fn hit_to_21_stands() {
    let mut g = playing(&[13, 5], &[10, 7], &[6]);
    g.hit();
    assert_eq!(g.phase, Phase::Result);
    assert_eq!(g.outcome, Some(Outcome::Win));
    assert_eq!(g.chips, 1500);
    assert_eq!(g.message, "You win! (21 vs 17) +1000 chips");
}

#[test]
fn dealer_draws_to_seventeen_and_busts() {
    let mut g = playing(&[10, 8], &[10, 6], &[9, 4]);
    g.stand();
    assert_eq!(ranks(&g.dealer), vec![10, 6, 9]);
    assert_eq!(ranks(&g.deck), vec![4]);
    assert_eq!(g.outcome, Some(Outcome::DealerBust));
    assert_eq!(g.chips, 1500);
    assert_eq!(g.message, "Dealer busts (25)! +1000 chips");
    assert_eq!(g.phase, Phase::Result);
}

#[test]
fn dealer_stands_on_soft_seventeen() {
    let mut g = playing(&[10, 8], &[1, 6], &[5]);
    g.stand();
    assert_eq!(ranks(&g.dealer), vec![1, 6]);
    assert_eq!(g.outcome, Some(Outcome::Win));
    assert_eq!(g.message, "You win! (18 vs 17) +1000 chips");
}

#[test]
fn dealer_higher_wins() {
    let mut g = playing(&[10, 6], &[10, 9], &[]);
    g.stand();
    assert_eq!(g.outcome, Some(Outcome::Lose));
    assert_eq!(g.chips, -500);
    assert_eq!(g.message, "Dealer wins (19 vs 16) -1000 chips");
}

#[test]
fn equal_scores_push() {
    let mut g = playing(&[10, 8], &[9, 9], &[]);
    g.stand();
    assert_eq!(g.outcome, Some(Outcome::Push));
    assert_eq!(g.chips, 500);
    assert_eq!(g.message, "Push! (18) Bet returned");
}

#[test]
fn hit_and_stand_do_nothing_outside_play() {
    let mut g = table(deck_with_top(&[5], 3), Phase::Betting);
    g.hit();
    g.stand();
    assert_eq!(g.phase, Phase::Betting);
    assert_eq!(g.deck.len(), 4);
    assert!(g.player.is_empty());
}

#[test]
fn empty_bet_does_nothing() {
    let mut g = table(deck_with_top(&[], 20), Phase::Betting);
    g.confirm_bet();
    assert_eq!(g.phase, Phase::Betting);
    assert_eq!(g.message, "Place your bet to start!");
}

#[test]
fn wrong_phrase_is_refused() {
    let mut g = table(deck_with_top(&[], 20), Phase::Verification);
    g.verification_input = String::from("I love poker");
    g.confirm_verification();
    assert_eq!(g.phase, Phase::Verification);
    assert_eq!(g.message, "Verification failed. Exact phrase required.");
    assert_eq!(g.verification_input, "I love poker");
}

#[test]
fn right_phrase_deals() {
    let mut g = table(deck_with_top(&[5, 6, 7, 8], 10), Phase::Verification);
    g.verification_input = String::from("I love blackjack");
    assert!(g.confirm_verification());
    assert!(g.verification_input.is_empty());
    assert_eq!(g.phase, Phase::Playing);
    assert_eq!(ranks(&g.player), vec![5, 7]);
}

#[test]
fn q_quits_in_every_phase() {
    for phase in [Phase::Betting, Phase::Verification, Phase::Playing, Phase::DealerTurn, Phase::Result] {
        let mut g = table(deck_with_top(&[], 20), phase);
        assert_eq!(g.handle_key(Key::Char('q')), Flow::Quit);
        assert_eq!(g.handle_key(Key::Char('Q')), Flow::Quit);
        assert_eq!(g.phase, phase);
    }
}

#[test]
fn bet_field_takes_at_most_five_digits() {
    let mut g = table(deck_with_top(&[], 20), Phase::Betting);
    for ch in "1234567x".chars() {
        assert_eq!(g.handle_key(Key::Char(ch)), Flow::Continue);
    }
    assert_eq!(g.bet_input, "12345");
    g.handle_key(Key::Backspace);
    assert_eq!(g.bet_input, "1234");
    g.handle_key(Key::Other);
    assert_eq!(g.bet_input, "1234");
}

#[test]
fn phrase_field_filters_and_limits() {
    let mut g = table(deck_with_top(&[], 20), Phase::Verification);
    for ch in "I love!".chars() {
        g.handle_key(Key::Char(ch));
    }
    assert_eq!(g.verification_input, "I love");
    for _ in 0..50 {
        g.handle_key(Key::Char('x'));
    }
    assert_eq!(g.verification_input.len(), 40);
    g.handle_key(Key::Backspace);
    assert_eq!(g.verification_input.len(), 39);
}

#[test]
fn typed_phrase_then_enter_deals() {
    let mut g = table(deck_with_top(&[5, 6, 7, 8], 10), Phase::Verification);
    for ch in "I love blackjack".chars() {
        g.handle_key(Key::Char(ch));
    }
    g.handle_key(Key::Enter);
    assert_eq!(g.phase, Phase::Playing);
}

#[test]
fn keys_during_play() {
    let mut g = playing(&[2, 3], &[10, 7], &[4, 5]);
    g.handle_key(Key::Char('x'));
    assert_eq!(g.player.len(), 2);
    g.handle_key(Key::Char('H'));
    assert_eq!(ranks(&g.player), vec![2, 3, 4]);
    g.handle_key(Key::Char('s'));
    assert_eq!(g.phase, Phase::Result);
    assert_eq!(g.outcome, Some(Outcome::Lose));
}

#[test]
fn new_hand_only_with_chips() {
    let mut g = playing(&[10, 8], &[9, 9], &[]);
    g.stand();
    g.handle_key(Key::Char('n'));
    assert_eq!(g.phase, Phase::Betting);
    assert_eq!(g.bet, 0);
    assert!(g.player.is_empty() && g.dealer.is_empty());
    assert_eq!(g.outcome, None);
    assert_eq!(g.message, "Place your bet to start!");
    assert!((1_000..=1_000_000).contains(&g.current_balance));

    let mut broke = playing(&[10, 6], &[10, 9], &[]);
    broke.stand();
    assert!(broke.is_broke());
    broke.handle_key(Key::Char('N'));
    assert_eq!(broke.phase, Phase::Result);
}

#[test]
fn scores_shown() {
    let g = playing(&[10, 8], &[1, 6], &[]);
    assert_eq!(g.dealer_score(), None);
    assert_eq!(g.player_score(), Some(18));
    assert!(g.hides_hole_card());
    let mut done = g;
    done.stand();
    assert_eq!(done.dealer_score(), Some(17));
    assert!(!done.hides_hole_card());
    let fresh = table(deck_with_top(&[], 20), Phase::Betting);
    assert_eq!(fresh.player_score(), None);
}

#[test]
fn message_tones() {
    let mut g = table(deck_with_top(&[], 20), Phase::Result);
    assert_eq!(g.message_tone(), Tone::Plain);
    for (o, t) in [
        (Outcome::Win, Tone::Good),
        (Outcome::Blackjack, Tone::Good),
        (Outcome::DealerBust, Tone::Good),
        (Outcome::Bust, Tone::Bad),
        (Outcome::Lose, Tone::Bad),
        (Outcome::Push, Tone::Even),
    ] {
        g.outcome = Some(o);
        assert_eq!(g.message_tone(), t);
    }
}

#[test]
fn status_lines() {
    let mut g = table(deck_with_top(&[], 20), Phase::Betting);
    g.current_balance = 4321;
    assert_eq!(
        g.status_line(),
        "Current Balance: $4321  │  Chips: 500  │  Bet: _  │  [0-9] type bet  [Enter] deal  [Q] quit"
    );
    g.bet_input = String::from("12");
    assert!(g.status_line().contains("Bet: 12  │"));
    g.phase = Phase::Playing;
    assert_eq!(g.status_line(), "Chips: 500  │  Bet: 1000  │  [H] hit  [S] stand  [Q] quit");
    g.phase = Phase::Verification;
    assert_eq!(
        g.status_line(),
        "Chips: 500  │  Bet: 1000  │  Verify: _  │  [Enter] submit  [Q] quit"
    );
    g.phase = Phase::Result;
    g.chips = -500;
    assert_eq!(g.status_line(), "Chips: -500  │  [N] new hand  [Q] quit");
}

fn sorted_cards(g: &Game) -> Vec<(u8, u8)> {
    let mut all: Vec<(u8, u8)> = g
        .deck
        .iter()
        .chain(g.player.iter())
        .chain(g.dealer.iter())
        .map(|c| (c.rank, c.suit as u8))
        .collect();
    all.sort();
    all
}

#[test]
fn cards_are_neither_made_nor_lost() {
    let mut g = playing(&[2, 3], &[10, 2], &[4, 5, 1, 9]);
    let before = sorted_cards(&g);
    g.hit();
    assert_eq!(sorted_cards(&g), before);
    g.stand();
    assert_eq!(sorted_cards(&g), before);
    let mut d = table(deck_with_top(&[5, 6, 7, 8], 10), Phase::Verification);
    let before = sorted_cards(&d);
    d.deal();
    assert_eq!(sorted_cards(&d), before);
}

#[test]
fn play_goes_on_only_below_twenty_one() {
    let mut g = table(deck_with_top(&[1, 6, 1, 8], 10), Phase::Verification);
    g.deal();
    assert_eq!(g.phase, Phase::Playing);
    assert_eq!(g.player_score(), Some(12));
    let mut fresh = Game::new();
    fresh.bet = 1000;
    fresh.deal();
    if fresh.phase == Phase::Playing {
        assert!(fresh.player_score().unwrap() < 21);
    } else {
        assert_eq!(fresh.outcome, Some(Outcome::Blackjack));
        assert_eq!(fresh.chips, 2000);
    }
}

#[test]
fn seventeen_real_cards_let_the_dealer_finish() {
    let mut g = playing(&[10, 9], &[2, 2], &[1; 17]);
    assert!(g.stand_is_safe());
    g.stand();
    assert!(g.dealer.len() <= 2 + 17);
    assert!(g.dealer_score().unwrap() >= 17);
}

#[test]
fn hit_to_twenty_one_never_loses() {
    let mut g = playing(&[10, 5], &[10, 10], &[6]);
    g.hit();
    assert_eq!(g.outcome, Some(Outcome::Win));
    let mut p = playing(&[10, 5], &[10, 1], &[6]);
    p.hit();
    assert_eq!(p.outcome, Some(Outcome::Push));
    assert_eq!(p.chips, 500);
}

#[test]
fn typed_bet_deals_at_that_bet() {
    let mut g = table(deck_with_top(&[5, 6, 7, 8], 10), Phase::Betting);
    g.bet = 0;
    g.bet_input = String::from("250");
    assert!(g.confirm_bet());
    assert_eq!(g.bet, 250);
    assert!(g.bet_input.is_empty());
    assert_eq!(g.phase, Phase::Playing);
    assert_eq!(ranks(&g.player), vec![5, 7]);
    assert_eq!(ranks(&g.dealer), vec![6, 8]);
    assert_eq!(g.message, "Hit or Stand?");
}

#[test]
fn any_typed_bet_deals() {
    for (typed, bet) in [("0", 0), ("7", 7), ("01000", 1000), ("99999", 99999)] {
        let mut g = table(deck_with_top(&[1, 6, 13, 8], 10), Phase::Betting);
        g.bet_input = String::from(typed);
        assert!(g.confirm_bet());
        assert_eq!(g.bet, bet);
        assert_eq!(g.phase, Phase::Result);
        assert_eq!(g.outcome, Some(Outcome::Blackjack));
        assert_eq!(g.chips, 500 + bet + bet / 2);
    }
}

#[test]
fn enter_deals_the_typed_bet() {
    let mut g = table(deck_with_top(&[5, 6, 7, 8], 10), Phase::Betting);
    for ch in "40".chars() {
        g.handle_key(Key::Char(ch));
    }
    assert_eq!(g.handle_key(Key::Enter), Flow::Continue);
    assert_eq!(g.phase, Phase::Playing);
    assert_eq!(g.bet, 40);
    assert_eq!(g.player.len(), 2);
    assert_eq!(g.dealer.len(), 2);
}

#[test]
fn enter_with_low_deck_deals_from_a_fresh_deck() {
    let mut g = table(deck_with_top(&[], 3), Phase::Betting);
    g.bet_input = String::from("10");
    assert!(g.confirm_bet());
    assert_eq!(g.deck.len(), 48);
    assert_eq!(g.bet, 10);
}

#[test]
fn overflowing_natural_stops_the_deal() {
    let mut g = table(deck_with_top(&[1, 6, 13, 8], 10), Phase::Betting);
    g.chips = i32::MAX - 100;
    g.bet_input = String::from("1000");
    assert!(!g.confirm_bet());
    assert_eq!(g.chips, i32::MAX - 100);
    assert_eq!(g.phase, Phase::Result);
    assert_eq!(g.outcome, Some(Outcome::Blackjack));
    let mut k = table(deck_with_top(&[1, 6, 13, 8], 10), Phase::Betting);
    k.chips = i32::MAX - 100;
    k.bet_input = String::from("1000");
    assert_eq!(k.handle_key(Key::Enter), Flow::ChipOverflow);
    let mut fine = table(deck_with_top(&[5, 6, 7, 8], 10), Phase::Betting);
    fine.chips = i32::MAX - 100;
    fine.bet_input = String::from("1000");
    assert!(fine.confirm_bet());
    assert_eq!(fine.phase, Phase::Playing);
}

#[test]
fn safety_checks() {
    let empty = playing(&[2, 3], &[10, 7], &[]);
    assert!(!empty.can_handle(Key::Char('h')));
    assert!(empty.can_handle(Key::Char('s')));
    assert!(empty.can_handle(Key::Char('q')));
    let short = playing(&[10, 8], &[2, 3], &[4]);
    assert!(!short.stand_is_safe());
    assert!(short.hit_is_safe());
    let betting = table(deck_with_top(&[], 3), Phase::Betting);
    assert!(betting.can_handle(Key::Enter));
}
