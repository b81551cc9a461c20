//! The table a player sits at: its state and the moves that change it.
use vstd::prelude::*;

use crate::cards::Card;
use crate::chance::{gen_range_inclusive, thread_rng};
use crate::deck::{build_deck, is_full_deck, ordered_deck};
use crate::hand::{ace_count, hand_score, hand_value, lemma_ace_count_le_len};
use crate::rules::{
    betting_edit, blackjack_text, bust_text, confirms_bet, confirms_phrase, deal_outcome,
    dealer_bust_text, dealer_play, deals, draw_for_player, hit_from, hit_safe, is_phrase_char,
    key_response, key_safe, lose_text, new_hand, opening_player, phrase_edit, push_text,
    round_deck, settle, stand_from, stand_safe, stand_safe_on, typed_bet, welcome_text, win_text,
    Flow, Key, Outcome, Phase, Table, BALANCE_MAX, BALANCE_MIN, BET_DIGITS_MAX, DEALER_STANDS_AT,
    PHRASE_CHARS_MAX, RESHUFFLE_BELOW, STARTING_CHIPS,
};
use crate::text::{
    append_decimal, append_signed, lemma_digits_value_bound, lemma_pow10_grows, parse_i32,
    pop_char, pow10, push_char,
};
use vstd::utf8::is_ascii_chars;

verus! {

/// A blackjack table with one player.
pub struct Game {
    pub deck: Vec<Card>,
    pub player: Vec<Card>,
    pub dealer: Vec<Card>,
    pub chips: i32,
    pub bet: i32,
    pub phase: Phase,
    pub outcome: Option<Outcome>,
    pub message: String,
    pub bet_input: String,
    pub verification_input: String,
    pub current_balance: i32,
}

impl View for Game {
    type V = Table;

    open spec fn view(&self) -> Table {
        Table {
            deck: self.deck@,
            player: self.player@,
            dealer: self.dealer@,
            chips: self.chips as int,
            bet: self.bet as int,
            phase: self.phase,
            outcome: self.outcome,
            message: self.message@,
            bet_input: self.bet_input@,
            verification_input: self.verification_input@,
            current_balance: self.current_balance as int,
        }
    }
}

fn blackjack_message(won: i32) -> (s: String)
    ensures
        s@ == blackjack_text(won as int),
{
    let mut s = String::from_str("BLACKJACK! +");
    append_signed(&mut s, won);
    s.append(" chips");
    s
}

fn bust_message(score: u8, bet: i32) -> (s: String)
    ensures
        s@ == bust_text(score as int, bet as int),
{
    let mut s = String::from_str("Bust! (");
    append_decimal(&mut s, score as u32);
    s.append(") -");
    append_signed(&mut s, bet);
    s.append("  chips");
    s
}

fn dealer_bust_message(dealer_score: u8, bet: i32) -> (s: String)
    ensures
        s@ == dealer_bust_text(dealer_score as int, bet as int),
{
    let mut s = String::from_str("Dealer busts (");
    append_decimal(&mut s, dealer_score as u32);
    s.append(")! +");
    append_signed(&mut s, bet);
    s.append(" chips");
    s
}

fn win_message(player_score: u8, dealer_score: u8, bet: i32) -> (s: String)
    ensures
        s@ == win_text(player_score as int, dealer_score as int, bet as int),
{
    let mut s = String::from_str("You win! (");
    append_decimal(&mut s, player_score as u32);
    s.append(" vs ");
    append_decimal(&mut s, dealer_score as u32);
    s.append(") +");
    append_signed(&mut s, bet);
    s.append(" chips");
    s
}

fn lose_message(dealer_score: u8, player_score: u8, bet: i32) -> (s: String)
    ensures
        s@ == lose_text(dealer_score as int, player_score as int, bet as int),
{
    let mut s = String::from_str("Dealer wins (");
    append_decimal(&mut s, dealer_score as u32);
    s.append(" vs ");
    append_decimal(&mut s, player_score as u32);
    s.append(") -");
    append_signed(&mut s, bet);
    s.append(" chips");
    s
}

fn push_message(player_score: u8) -> (s: String)
    ensures
        s@ == push_text(player_score as int),
{
    let mut s = String::from_str("Push! (");
    append_decimal(&mut s, player_score as u32);
    s.append(") Bet returned");
    s
}

/// The length of a field holding only ASCII characters.
fn field_len(s: &String) -> (n: usize)
    requires
        is_ascii_chars(s@),
        s@.len() <= PHRASE_CHARS_MAX,
    ensures
        n == s@.len(),
{
    let text = s.as_str();
    proof {
        vstd::utf8::is_ascii_chars_encode_utf8(text@);
    }
    text.len()
}

/// Whether the payment phrase field accepts `c`.
fn is_phrase_char_exec(c: char) -> (b: bool)
    ensures
        b == is_phrase_char(c),
{
    ('0' <= c && c <= '9') || ('a' <= c && c <= 'z') || ('A' <= c && c <= 'Z') || c == ' ' || c
        == '-' || c == '?'
}

/// A copy of a row of cards.
fn copy_cards(cards: &Vec<Card>) -> (copy: Vec<Card>)
    ensures
        copy@ == cards@,
{
    let mut copy: Vec<Card> = Vec::new();
    let mut i: usize = 0;
    while i < cards.len()
        invariant
            i <= cards@.len(),
            copy@ == cards@.take(i as int),
        decreases cards@.len() - i,
    {
        assert(cards@.take(i + 1) =~= cards@.take(i as int).push(cards@[i as int]));
        copy.push(cards[i]);
        i += 1;
    }
    assert(cards@.take(cards@.len() as int) =~= cards@);
    copy
}

/// Whether standing with these hands and the first `deck_len` cards of
/// `deck` lets the dealer reach 17 and keeps the chip count in range.
fn stand_is_safe_on(
    player: &Vec<Card>,
    dealer: &Vec<Card>,
    deck: &Vec<Card>,
    deck_len: usize,
    chips: i32,
    bet: i32,
) -> (safe: bool)
    requires
        deck_len <= deck@.len(),
        player@.len() + dealer@.len() + deck_len <= 52,
    ensures
        safe == stand_safe_on(player@, dealer@, deck@.take(deck_len as int), chips as int, bet as int),
{
    let ghost goal = dealer_play(dealer@, deck@.take(deck_len as int));
    let mut hand = copy_cards(dealer);
    let mut left = deck_len;
    proof {
        lemma_ace_count_le_len(hand@);
    }
    while left > 0 && hand_value(hand.as_slice()) < DEALER_STANDS_AT
        invariant
            left <= deck_len <= deck@.len(),
            hand@.len() + left == dealer@.len() + deck_len,
            dealer@.len() + deck_len <= 52,
            ace_count(hand@) <= hand@.len(),
            dealer_play(hand@, deck@.take(left as int)) == goal,
        decreases left,
    {
        assert(deck@.take(left as int).drop_last() =~= deck@.take(left - 1));
        hand.push(deck[left - 1]);
        left -= 1;
        proof {
            lemma_ace_count_le_len(hand@);
        }
    }
    assert(goal == (hand@, deck@.take(left as int)));
    proof {
        lemma_ace_count_le_len(player@);
    }
    let dv = hand_value(hand.as_slice());
    let pv = hand_value(player.as_slice());
    if dv < DEALER_STANDS_AT {
        return false;
    }
    let total = chips as i64;
    let stake = bet as i64;
    if (dv > 21 || pv > dv) && total + stake > i32::MAX as i64 {
        return false;
    }
    if (dv <= 21 && dv > pv) && total - stake < i32::MIN as i64 {
        return false;
    }
    true
}

impl Game {
    /// A new table: 500 chips, a shuffled full deck, no bet yet, and some
    /// balance between 1,000 and 1,000,000 claimed for the player.
    pub fn new() -> (g: Game)
        ensures
            g@.wf(),
            g@.deck.len() == 52,
            is_full_deck(g@.deck),
            g@.player.len() == 0,
            g@.dealer.len() == 0,
            g.chips == 500,
            g.bet == 0,
            g.phase == Phase::Betting,
            g.outcome is None,
            g@.message == "Place your bet to start!"@,
            g@.bet_input.len() == 0,
            g@.verification_input.len() == 0,
            1000 <= g.current_balance <= 1_000_000,
    {
        let deck = build_deck();
        let mut rng = thread_rng();
        let current_balance = gen_range_inclusive(&mut rng, BALANCE_MIN, BALANCE_MAX);
        Game {
            deck,
            player: Vec::new(),
            dealer: Vec::new(),
            chips: STARTING_CHIPS,
            bet: 0,
            phase: Phase::Betting,
            outcome: None,
            message: String::from_str("Place your bet to start!"),
            bet_input: String::new(),
            verification_input: String::new(),
            current_balance,
        }
    }

    /// Claims a new balance for the player, somewhere between 1,000 and
    /// 1,000,000; nothing else changes.
    pub fn roll_fake_balance(&mut self)
        ensures
            BALANCE_MIN <= final(self).current_balance <= BALANCE_MAX,
            final(self)@ == (Table { current_balance: final(self).current_balance as int, ..old(self)@ }),
    {
        let mut rng = thread_rng();
        self.current_balance = gen_range_inclusive(&mut rng, BALANCE_MIN, BALANCE_MAX);
    }

    /// Deals a new hand: two cards each from the top of the deck, player
    /// first, after replacing the deck with a newly shuffled full one when
    /// fewer than ten cards are left. A player natural ends the hand at once
    /// and pays one and a half times the bet. Returns false, with the payout
    /// not made, exactly when such a payout would overflow the chip count.
    pub fn deal(&mut self) -> (settled: bool)
        requires
            old(self)@.wf(),
        ensures
            final(self)@.wf(),
            deals(old(self)@, final(self)@, settled),
    {
        let ghost t = self@;
        if self.deck.len() < RESHUFFLE_BELOW {
            self.deck = build_deck();
        }
        let ghost d = self.deck@;
        let ghost shoe = if t.deck.len() < RESHUFFLE_BELOW { d } else { ordered_deck() };
        assert(d == round_deck(t, shoe));
        self.player.clear();
        self.dealer.clear();
        let first = self.deck.pop().unwrap();
        self.player.push(first);
        let second = self.deck.pop().unwrap();
        self.dealer.push(second);
        let third = self.deck.pop().unwrap();
        self.player.push(third);
        let fourth = self.deck.pop().unwrap();
        self.dealer.push(fourth);
        assert(self.player@ =~= opening_player(d));
        assert(self.deck@ =~= d.take(d.len() - 4));
        self.phase = Phase::Playing;
        self.outcome = None;
        proof {
            lemma_ace_count_le_len(self.player@);
        }
        if hand_value(self.player.as_slice()) == 21 {
            let won = self.bet + self.bet / 2;
            self.phase = Phase::Result;
            self.outcome = Some(Outcome::Blackjack);
            if self.chips > i32::MAX - won {
                assert(self@ =~= deal_outcome(t, round_deck(t, shoe)));
                return false;
            }
            self.chips = self.chips + won;
            self.message = blackjack_message(won);
        } else {
            self.message = String::from_str("Hit or Stand?");
        }
        assert(self@ =~= deal_outcome(t, round_deck(t, shoe)));
        true
    }

    /// The player stands: the dealer draws from the top of the deck while
    /// the dealer's score is below 17, then the hand is settled by the two
    /// scores. Outside play nothing happens.
    pub fn stand(&mut self)
        requires
            old(self)@.wf(),
            stand_safe(old(self)@),
        ensures
            final(self)@.wf(),
            final(self)@ == stand_from(old(self)@),
    {
        if self.phase != Phase::Playing {
            return ;
        }
        let ghost t = self@;
        self.phase = Phase::DealerTurn;
        proof {
            lemma_ace_count_le_len(self.dealer@);
        }
        while hand_value(self.dealer.as_slice()) < DEALER_STANDS_AT
            invariant
                self@ == (Table { dealer: self.dealer@, deck: self.deck@, phase: Phase::DealerTurn, ..t }),
                dealer_play(self.dealer@, self.deck@) == dealer_play(t.dealer, t.deck),
                hand_score(dealer_play(t.dealer, t.deck).0) >= DEALER_STANDS_AT,
                self.dealer@.len() + self.deck@.len() == t.dealer.len() + t.deck.len(),
                t.wf(),
                ace_count(self.dealer@) <= self.dealer@.len(),
            decreases self.deck@.len(),
        {
            let card = self.deck.pop().unwrap();
            self.dealer.push(card);
            proof {
                lemma_ace_count_le_len(self.dealer@);
            }
        }
        proof {
            lemma_ace_count_le_len(self.player@);
        }
        let pv = hand_value(self.player.as_slice());
        let dv = hand_value(self.dealer.as_slice());
        if dv > 21 {
            self.outcome = Some(Outcome::DealerBust);
            self.chips = self.chips + self.bet;
            self.message = dealer_bust_message(dv, self.bet);
        } else if pv > dv {
            self.outcome = Some(Outcome::Win);
            self.chips = self.chips + self.bet;
            self.message = win_message(pv, dv, self.bet);
        } else if dv > pv {
            self.outcome = Some(Outcome::Lose);
            self.chips = self.chips - self.bet;
            self.message = lose_message(dv, pv, self.bet);
        } else {
            self.outcome = Some(Outcome::Push);
            self.message = push_message(pv);
        }
        self.phase = Phase::Result;
        assert(self@ =~= settle(t, self.dealer@, self.deck@));
    }

    /// The player takes the top card of the deck: over 21 the hand is lost
    /// at once and the bet paid, at exactly 21 the player stands. Outside
    /// play nothing happens.
    pub fn hit(&mut self)
        requires
            old(self)@.wf(),
            hit_safe(old(self)@),
        ensures
            final(self)@.wf(),
            final(self)@ == hit_from(old(self)@),
    {
        if self.phase != Phase::Playing {
            return ;
        }
        let ghost t = self@;
        let card = self.deck.pop().unwrap();
        self.player.push(card);
        assert(self@ =~= draw_for_player(t));
        proof {
            lemma_ace_count_le_len(self.player@);
        }
        let v = hand_value(self.player.as_slice());
        if v > 21 {
            self.phase = Phase::Result;
            self.outcome = Some(Outcome::Bust);
            self.chips = self.chips - self.bet;
            self.message = bust_message(v, self.bet);
            assert(self@ =~= hit_from(t));
        } else if v == 21 {
            self.stand();
        }
    }

    /// Submits the typed bet: a typed bet becomes the bet, the field is
    /// emptied and the hand is dealt; with nothing typed nothing happens.
    /// Returns false only when the deal stops on a natural whose payout the
    /// chip count cannot hold.
    pub fn confirm_bet(&mut self) -> (settled: bool)
        requires
            old(self)@.wf(),
        ensures
            final(self)@.wf(),
            confirms_bet(old(self)@, final(self)@, settled),
    {
        let ghost t = self@;
        proof {
            lemma_digits_value_bound(self.bet_input@);
            assert(pow10(5) == 100000) by {
                reveal_with_fuel(pow10, 6);
            }
            lemma_pow10_grows(self.bet_input@.len(), 5);
        }
        let parsed = parse_i32(self.bet_input.as_str());
        if let Some(b) = parsed {
            assert(typed_bet(t) == Some(b as int));
            self.bet = b;
            self.bet_input = String::new();
            assert(self@ =~= (Table { bet: b as int, bet_input: Seq::empty(), ..t }));
            self.deal()
        } else {
            assert(typed_bet(t) is None);
            true
        }
    }

    /// Submits the payment phrase: the exact phrase empties the field and
    /// deals, anything else is refused with a message. Returns false only
    /// when the deal stops on a natural whose payout the chip count cannot
    /// hold.
    pub fn confirm_verification(&mut self) -> (settled: bool)
        requires
            old(self)@.wf(),
        ensures
            final(self)@.wf(),
            confirms_phrase(old(self)@, final(self)@, settled),
    {
        let ghost t = self@;
        let phrase = String::from_str("I love blackjack");
        if self.verification_input == phrase {
            self.verification_input = String::new();
            assert(self@ =~= (Table { verification_input: Seq::empty(), ..t }));
            self.deal()
        } else {
            self.message = String::from_str("Verification failed. Exact phrase required.");
            true
        }
    }

    /// Acts on one key: `q` quits in every phase; while betting, digits are
    /// typed (at most five), Backspace erases and Enter deals at the typed
    /// bet;
    /// while paying, letters, digits, space, `-` and `?` are typed (at most
    /// forty), Backspace erases and Enter submits the phrase; during play
    /// `h` hits and `s` stands; after a hand `n` starts a new one if the
    /// player has chips left. Any other key does nothing. The result is
    /// `ChipOverflow` only when a deal stops on a natural whose payout the
    /// chip count cannot hold.
    pub fn handle_key(&mut self, key: Key) -> (flow: Flow)
        requires
            old(self)@.wf(),
            key_safe(old(self)@, key),
        ensures
            final(self)@.wf(),
            key_response(old(self)@, key, final(self)@, flow),
    {
        let ghost t = self@;
        if key == Key::Char('q') || key == Key::Char('Q') {
            return Flow::Quit;
        }
        match self.phase {
            Phase::Betting => match key {
                Key::Char(c) => {
                    if '0' <= c && c <= '9' {
                        if field_len(&self.bet_input) < BET_DIGITS_MAX {
                            push_char(&mut self.bet_input, c);
                        }
                    }
                    assert(self@ =~= betting_edit(t, key));
                },
                Key::Backspace => {
                    let _ = pop_char(&mut self.bet_input);
                    assert(self@ =~= betting_edit(t, key));
                },
                Key::Enter => {
                    if !self.confirm_bet() {
                        return Flow::ChipOverflow;
                    }
                },
                Key::Other => {},
            },
            Phase::Verification => match key {
                Key::Char(c) => {
                    if is_phrase_char_exec(c) {
                        if field_len(&self.verification_input) < PHRASE_CHARS_MAX {
                            push_char(&mut self.verification_input, c);
                        }
                    }
                    assert(self@ =~= phrase_edit(t, key));
                },
                Key::Backspace => {
                    let _ = pop_char(&mut self.verification_input);
                    assert(self@ =~= phrase_edit(t, key));
                },
                Key::Enter => {
                    if !self.confirm_verification() {
                        return Flow::ChipOverflow;
                    }
                },
                Key::Other => {},
            },
            Phase::Playing => {
                if key == Key::Char('h') || key == Key::Char('H') {
                    self.hit();
                } else if key == Key::Char('s') || key == Key::Char('S') {
                    self.stand();
                }
            },
            Phase::Result | Phase::DealerTurn => {
                if key == Key::Char('n') || key == Key::Char('N') {
                    if self.chips > 0 {
                        self.bet = 0;
                        self.phase = Phase::Betting;
                        self.player.clear();
                        self.dealer.clear();
                        self.outcome = None;
                        self.roll_fake_balance();
                        self.message = String::from_str("Place your bet to start!");
                        assert(self@ =~= new_hand(t, self.current_balance as int));
                    }
                }
            },
        }
        Flow::Continue
    }

    /// Whether hitting now has a card to draw and keeps the chip count in
    /// range (always, outside play).
    pub fn hit_is_safe(&self) -> (safe: bool)
        requires
            self@.wf(),
        ensures
            safe == hit_safe(self@),
    {
        if self.phase != Phase::Playing {
            return true;
        }
        let n = self.deck.len();
        if n == 0 {
            return false;
        }
        let mut hand = copy_cards(&self.player);
        hand.push(self.deck[n - 1]);
        let ghost drawn = draw_for_player(self@);
        assert(hand@ == drawn.player);
        assert(self.deck@.take(n - 1) =~= drawn.deck);
        proof {
            lemma_ace_count_le_len(hand@);
        }
        let v = hand_value(hand.as_slice());
        if v > 21 {
            (self.chips as i64) - (self.bet as i64) >= i32::MIN as i64
        } else if v == 21 {
            stand_is_safe_on(&hand, &self.dealer, &self.deck, n - 1, self.chips, self.bet)
        } else {
            true
        }
    }

    /// Whether standing now lets the dealer reach 17 before the deck runs
    /// out and keeps the chip count in range (always, outside play).
    pub fn stand_is_safe(&self) -> (safe: bool)
        requires
            self@.wf(),
        ensures
            safe == stand_safe(self@),
    {
        if self.phase != Phase::Playing {
            return true;
        }
        assert(self.deck@.take(self.deck@.len() as int) =~= self.deck@);
        stand_is_safe_on(&self.player, &self.dealer, &self.deck, self.deck.len(), self.chips, self.bet)
    }

    /// Whether `key` can be handled now without running out of cards or
    /// overflowing the chip count.
    pub fn can_handle(&self, key: Key) -> (safe: bool)
        requires
            self@.wf(),
        ensures
            safe == key_safe(self@, key),
    {
        if key == Key::Char('q') || key == Key::Char('Q') {
            return true;
        }
        match self.phase {
            Phase::Playing => {
                if key == Key::Char('h') || key == Key::Char('H') {
                    self.hit_is_safe()
                } else if key == Key::Char('s') || key == Key::Char('S') {
                    self.stand_is_safe()
                } else {
                    true
                }
            },
            _ => true,
        }
    }
}

} // verus!
