//! The table as a mathematical state and the rules that move it: dealing,
//! hitting, standing, betting, the payment phrase and the keys a player
//! presses.
use vstd::prelude::*;

use crate::cards::Card;
use crate::deck::is_full_deck;
use crate::hand::hand_score;
use crate::text::{all_digits, decimal, digits_value, signed_decimal};

verus! {

/// Chips a new player sits down with.
pub const STARTING_CHIPS: i32 = 500;

/// The smallest balance the table may claim a player has.
pub const BALANCE_MIN: i32 = 1_000;

/// The largest balance the table may claim a player has.
pub const BALANCE_MAX: i32 = 1_000_000;

/// With fewer cards than this left, the deck is replaced before a deal.
pub const RESHUFFLE_BELOW: usize = 10;

/// The dealer draws while the dealer's score is below this.
pub const DEALER_STANDS_AT: u8 = 17;

/// The most digits a bet may be typed with.
pub const BET_DIGITS_MAX: usize = 5;

/// The most characters the payment phrase field holds.
pub const PHRASE_CHARS_MAX: usize = 40;

/// Where a hand stands.
#[derive(Clone, Copy, Debug, PartialEq, Eq, Structural)]
pub enum Phase {
    Betting,
    Verification,
    Playing,
    DealerTurn,
    Result,
}

/// How a finished hand ended.
#[derive(Clone, Copy, Debug, PartialEq, Eq, Structural)]
pub enum Outcome {
    Win,
    Lose,
    Push,
    Blackjack,
    Bust,
    DealerBust,
}

/// A key the player pressed, as far as the table tells keys apart.
#[derive(Clone, Copy, Debug, PartialEq, Eq, Structural)]
pub enum Key {
    Char(char),
    Backspace,
    Enter,
    Other,
}

/// Whether play goes on after a key.
#[derive(Clone, Copy, Debug, PartialEq, Eq, Structural)]
pub enum Flow {
    Continue,
    Quit,
    /// A natural came whose payout the chip count cannot hold; play stops.
    ChipOverflow,
}

/// The whole state of the table, as values.
#[verifier::ext_equal]
pub struct Table {
    pub deck: Seq<Card>,
    pub player: Seq<Card>,
    pub dealer: Seq<Card>,
    pub chips: int,
    pub bet: int,
    pub phase: Phase,
    pub outcome: Option<Outcome>,
    pub message: Seq<char>,
    pub bet_input: Seq<char>,
    pub verification_input: Seq<char>,
    pub current_balance: int,
}

// ---------------------------------------------------------------------
// What the table says.
// ---------------------------------------------------------------------

/// The greeting before a bet.
pub open spec fn welcome_text() -> Seq<char> {
    "Place your bet to start!"@
}

/// The prompt while the player decides.
pub open spec fn hit_or_stand_text() -> Seq<char> {
    "Hit or Stand?"@
}

/// The answer to a wrong payment phrase.
pub open spec fn verification_failed_text() -> Seq<char> {
    "Verification failed. Exact phrase required."@
}

/// The phrase that pays.
pub open spec fn passphrase() -> Seq<char> {
    "I love blackjack"@
}

/// The announcement of a natural.
pub open spec fn blackjack_text(won: int) -> Seq<char> {
    "BLACKJACK! +"@ + signed_decimal(won) + " chips"@
}

/// The announcement of a player bust.
pub open spec fn bust_text(score: int, bet: int) -> Seq<char> {
    "Bust! ("@ + decimal(score as nat) + ") -"@ + signed_decimal(bet) + "  chips"@
}

/// The announcement of a dealer bust.
pub open spec fn dealer_bust_text(dealer_score: int, bet: int) -> Seq<char> {
    "Dealer busts ("@ + decimal(dealer_score as nat) + ")! +"@ + signed_decimal(bet) + " chips"@
}

/// The announcement of a won hand.
pub open spec fn win_text(player_score: int, dealer_score: int, bet: int) -> Seq<char> {
    "You win! ("@ + decimal(player_score as nat) + " vs "@ + decimal(dealer_score as nat) + ") +"@
        + signed_decimal(bet) + " chips"@
}

/// The announcement of a lost hand.
pub open spec fn lose_text(dealer_score: int, player_score: int, bet: int) -> Seq<char> {
    "Dealer wins ("@ + decimal(dealer_score as nat) + " vs "@ + decimal(player_score as nat) + ") -"@
        + signed_decimal(bet) + " chips"@
}

/// The announcement of a tie.
pub open spec fn push_text(player_score: int) -> Seq<char> {
    "Push! ("@ + decimal(player_score as nat) + ") Bet returned"@
}

// ---------------------------------------------------------------------
// Validity.
// ---------------------------------------------------------------------

/// A character the payment phrase field accepts: an ASCII letter or digit,
/// a space, `-` or `?`.
pub open spec fn is_phrase_char(c: char) -> bool {
    ||| '0' <= c <= '9'
    ||| 'a' <= c <= 'z'
    ||| 'A' <= c <= 'Z'
    ||| c == ' '
    ||| c == '-'
    ||| c == '?'
}

/// Every character of `s` is one the payment phrase field accepts.
pub open spec fn all_phrase_chars(s: Seq<char>) -> bool {
    forall|i: int| 0 <= i < s.len() ==> is_phrase_char(#[trigger] s[i])
}

impl Table {
    /// A table as play can leave it: at most one deck's worth of cards on
    /// it, a bet between nothing and the largest balance, a balance in its
    /// range, and input fields holding only what can be typed into them.
    pub open spec fn wf(self) -> bool {
        &&& self.deck.len() + self.player.len() + self.dealer.len() <= 52
        &&& 0 <= self.bet <= BALANCE_MAX
        &&& BALANCE_MIN <= self.current_balance <= BALANCE_MAX
        &&& i32::MIN <= self.chips <= i32::MAX
        &&& self.bet_input.len() <= BET_DIGITS_MAX
        &&& all_digits(self.bet_input)
        &&& self.verification_input.len() <= PHRASE_CHARS_MAX
        &&& all_phrase_chars(self.verification_input)
    }
}

// ---------------------------------------------------------------------
// Dealing.
// ---------------------------------------------------------------------

/// What a natural pays: one and a half times the bet, rounded down.
pub open spec fn blackjack_payout(bet: int) -> int {
    bet + bet / 2
}

/// The deck a deal draws from: the deck on the table, or a fresh `shoe`
/// when fewer than `RESHUFFLE_BELOW` cards are left.
pub open spec fn round_deck(t: Table, shoe: Seq<Card>) -> Seq<Card> {
    if t.deck.len() < RESHUFFLE_BELOW {
        shoe
    } else {
        t.deck
    }
}

/// The player's opening hand: the first and third cards off the top (the
/// end) of the deck.
pub open spec fn opening_player(deck: Seq<Card>) -> Seq<Card> {
    seq![deck[deck.len() - 1], deck[deck.len() - 3]]
}

/// The dealer's opening hand: the second and fourth cards off the top.
pub open spec fn opening_dealer(deck: Seq<Card>) -> Seq<Card> {
    seq![deck[deck.len() - 2], deck[deck.len() - 4]]
}

/// The table after dealing from `deck`: two cards each, alternately, the
/// player first; a player natural ends the hand at once and pays.
pub open spec fn deal_from(t: Table, deck: Seq<Card>) -> Table {
    let player = opening_player(deck);
    let natural = hand_score(player) == 21;
    Table {
        deck: deck.take(deck.len() - 4),
        player: player,
        dealer: opening_dealer(deck),
        phase: if natural {
            Phase::Result
        } else {
            Phase::Playing
        },
        outcome: if natural {
            Some(Outcome::Blackjack)
        } else {
            None
        },
        chips: if natural {
            t.chips + blackjack_payout(t.bet)
        } else {
            t.chips
        },
        message: if natural {
            blackjack_text(blackjack_payout(t.bet))
        } else {
            hit_or_stand_text()
        },
        ..t
    }
}

/// A natural comes from `deck` and its payout does not fit the chip count.
pub open spec fn natural_overflows(t: Table, deck: Seq<Card>) -> bool {
    hand_score(opening_player(deck)) == 21 && t.chips + blackjack_payout(t.bet) > i32::MAX
}

/// The table where a deal from `deck` stops: the cards are dealt and the
/// hand marked a natural, but the payout is not made.
pub open spec fn overflowing_deal(t: Table, deck: Seq<Card>) -> Table {
    Table {
        deck: deck.take(deck.len() - 4),
        player: opening_player(deck),
        dealer: opening_dealer(deck),
        phase: Phase::Result,
        outcome: Some(Outcome::Blackjack),
        ..t
    }
}

/// The table after dealing from `deck`, or where the deal stops when a
/// natural's payout would overflow the chip count.
pub open spec fn deal_outcome(t: Table, deck: Seq<Card>) -> Table {
    if natural_overflows(t, deck) {
        overflowing_deal(t, deck)
    } else {
        deal_from(t, deck)
    }
}

/// `t2` is `t` after a deal, from the deck on the table or from some newly
/// shuffled full deck when the table's deck runs low; `settled` is false
/// exactly when a natural came whose payout the chip count cannot hold.
pub open spec fn deals(t: Table, t2: Table, settled: bool) -> bool {
    exists|shoe: Seq<Card>|
        shoe.len() == 52 && is_full_deck(shoe) && t2 == #[trigger] deal_outcome(
            t,
            round_deck(t, shoe),
        ) && settled == !natural_overflows(t, round_deck(t, shoe))
}

// ---------------------------------------------------------------------
// The dealer's play and the settlement.
// ---------------------------------------------------------------------

/// The dealer's hand and the deck after the dealer draws from the top of
/// the deck while the dealer's score is below 17 and cards are left.
pub open spec fn dealer_play(dealer: Seq<Card>, deck: Seq<Card>) -> (Seq<Card>, Seq<Card>)
    decreases deck.len(),
{
    if hand_score(dealer) >= DEALER_STANDS_AT || deck.len() == 0 {
        (dealer, deck)
    } else {
        dealer_play(dealer.push(deck.last()), deck.drop_last())
    }
}

/// The table once the dealer has finished with `dealer` and `deck` left:
/// the hand is settled by comparing scores.
pub open spec fn settle(t: Table, dealer: Seq<Card>, deck: Seq<Card>) -> Table {
    let pv = hand_score(t.player);
    let dv = hand_score(dealer);
    let done = Table { dealer: dealer, deck: deck, phase: Phase::Result, ..t };
    if dv > 21 {
        Table {
            outcome: Some(Outcome::DealerBust),
            chips: t.chips + t.bet,
            message: dealer_bust_text(dv, t.bet),
            ..done
        }
    } else if pv > dv {
        Table {
            outcome: Some(Outcome::Win),
            chips: t.chips + t.bet,
            message: win_text(pv, dv, t.bet),
            ..done
        }
    } else if dv > pv {
        Table {
            outcome: Some(Outcome::Lose),
            chips: t.chips - t.bet,
            message: lose_text(dv, pv, t.bet),
            ..done
        }
    } else {
        Table { outcome: Some(Outcome::Push), message: push_text(pv), ..done }
    }
}

/// The table after the player stands; nothing happens outside play.
pub open spec fn stand_from(t: Table) -> Table {
    if t.phase != Phase::Playing {
        t
    } else {
        let (dealer, deck) = dealer_play(t.dealer, t.deck);
        settle(t, dealer, deck)
    }
}

/// Standing on these hands with this deck neither runs out of cards before
/// the dealer reaches 17 nor overflows the chip count.
pub open spec fn stand_safe_on(
    player: Seq<Card>,
    dealer: Seq<Card>,
    deck: Seq<Card>,
    chips: int,
    bet: int,
) -> bool {
    let done = dealer_play(dealer, deck).0;
    let pv = hand_score(player);
    let dv = hand_score(done);
    &&& dv >= DEALER_STANDS_AT
    &&& (dv > 21 || pv > dv) ==> chips + bet <= i32::MAX
    &&& (dv <= 21 && dv > pv) ==> chips - bet >= i32::MIN
}

/// Standing is safe (or does nothing, outside play).
pub open spec fn stand_safe(t: Table) -> bool {
    t.phase == Phase::Playing ==> stand_safe_on(t.player, t.dealer, t.deck, t.chips, t.bet)
}

// ---------------------------------------------------------------------
// Hitting.
// ---------------------------------------------------------------------

/// The table after the player draws the top card, before anything else.
pub open spec fn draw_for_player(t: Table) -> Table {
    Table { player: t.player.push(t.deck.last()), deck: t.deck.drop_last(), ..t }
}

/// The table after the player hits: a bust ends the hand and costs the
/// bet, 21 stands at once; nothing happens outside play.
pub open spec fn hit_from(t: Table) -> Table {
    if t.phase != Phase::Playing {
        t
    } else {
        let drawn = draw_for_player(t);
        let v = hand_score(drawn.player);
        if v > 21 {
            Table {
                phase: Phase::Result,
                outcome: Some(Outcome::Bust),
                chips: t.chips - t.bet,
                message: bust_text(v, t.bet),
                ..drawn
            }
        } else if v == 21 {
            stand_from(drawn)
        } else {
            drawn
        }
    }
}

/// Hitting has a card to draw and cannot overflow the chip count (or does
/// nothing, outside play).
pub open spec fn hit_safe(t: Table) -> bool {
    t.phase == Phase::Playing ==> {
        let drawn = draw_for_player(t);
        let v = hand_score(drawn.player);
        &&& t.deck.len() > 0
        &&& v > 21 ==> t.chips - t.bet >= i32::MIN
        &&& v == 21 ==> stand_safe(drawn)
    }
}

// ---------------------------------------------------------------------
// Betting and the payment phrase.
// ---------------------------------------------------------------------

/// The bet the player typed, if any.
pub open spec fn typed_bet(t: Table) -> Option<int> {
    if t.bet_input.len() == 0 {
        None
    } else {
        Some(digits_value(t.bet_input))
    }
}

/// `t2` is `t` after the player submits the typed bet: a typed bet is
/// taken as the bet, the field is emptied and the hand is dealt; with
/// nothing typed nothing happens. `settled` is false only when the deal
/// stops on a natural whose payout the chip count cannot hold.
pub open spec fn confirms_bet(t: Table, t2: Table, settled: bool) -> bool {
    match typed_bet(t) {
        None => t2 == t && settled,
        Some(b) => deals(Table { bet: b, bet_input: Seq::empty(), ..t }, t2, settled),
    }
}

/// `t2` is `t` after the player submits the payment phrase: the exact
/// phrase clears the field and deals, anything else is refused.
pub open spec fn confirms_phrase(t: Table, t2: Table, settled: bool) -> bool {
    if t.verification_input == passphrase() {
        deals(Table { verification_input: Seq::empty(), ..t }, t2, settled)
    } else {
        t2 == Table { message: verification_failed_text(), ..t } && settled
    }
}

/// The table for a new hand with a newly claimed `balance`.
pub open spec fn new_hand(t: Table, balance: int) -> Table {
    Table {
        bet: 0,
        phase: Phase::Betting,
        player: Seq::empty(),
        dealer: Seq::empty(),
        outcome: None,
        current_balance: balance,
        message: welcome_text(),
        ..t
    }
}

/// `t2` is `t` after the player asks for a new hand: granted only while the
/// player has chips, with some balance in range claimed anew.
pub open spec fn starts_new_hand(t: Table, t2: Table) -> bool {
    if t.chips > 0 {
        exists|b: int| BALANCE_MIN <= b <= BALANCE_MAX && t2 == #[trigger] new_hand(t, b)
    } else {
        t2 == t
    }
}

// ---------------------------------------------------------------------
// Keys.
// ---------------------------------------------------------------------

/// `q` or `Q` quits in every phase.
pub open spec fn is_quit_key(key: Key) -> bool {
    key == Key::Char('q') || key == Key::Char('Q')
}

/// A field with its last character removed, if it has one.
pub open spec fn erase_last(s: Seq<char>) -> Seq<char> {
    if s.len() == 0 {
        s
    } else {
        s.drop_last()
    }
}

/// A field with `c` typed at its end, unless it already holds `limit`
/// characters.
pub open spec fn type_char(s: Seq<char>, c: char, limit: int) -> Seq<char> {
    if s.len() < limit {
        s.push(c)
    } else {
        s
    }
}

/// The table after a key while betting, other than quitting and Enter.
pub open spec fn betting_edit(t: Table, key: Key) -> Table {
    match key {
        Key::Char(c) => if '0' <= c <= '9' {
            Table { bet_input: type_char(t.bet_input, c, BET_DIGITS_MAX as int), ..t }
        } else {
            t
        },
        Key::Backspace => Table { bet_input: erase_last(t.bet_input), ..t },
        _ => t,
    }
}

/// The table after a key while paying, other than quitting and Enter.
pub open spec fn phrase_edit(t: Table, key: Key) -> Table {
    match key {
        Key::Char(c) => if is_phrase_char(c) {
            Table {
                verification_input: type_char(t.verification_input, c, PHRASE_CHARS_MAX as int),
                ..t
            }
        } else {
            t
        },
        Key::Backspace => Table { verification_input: erase_last(t.verification_input), ..t },
        _ => t,
    }
}

/// The table after a key during play: `h` hits, `s` stands.
pub open spec fn playing_key(t: Table, key: Key) -> Table {
    if key == Key::Char('h') || key == Key::Char('H') {
        hit_from(t)
    } else if key == Key::Char('s') || key == Key::Char('S') {
        stand_from(t)
    } else {
        t
    }
}

/// `t2` and `flow` are what the table does with `key` in state `t`.
pub open spec fn key_response(t: Table, key: Key, t2: Table, flow: Flow) -> bool {
    if is_quit_key(key) {
        flow == Flow::Quit && t2 == t
    } else {
        flow != Flow::Quit && match t.phase {
            Phase::Betting => if key == Key::Enter {
                confirms_bet(t, t2, flow == Flow::Continue)
            } else {
                flow == Flow::Continue && t2 == betting_edit(t, key)
            },
            Phase::Verification => if key == Key::Enter {
                confirms_phrase(t, t2, flow == Flow::Continue)
            } else {
                flow == Flow::Continue && t2 == phrase_edit(t, key)
            },
            Phase::Playing => flow == Flow::Continue && t2 == playing_key(t, key),
            Phase::Result | Phase::DealerTurn => flow == Flow::Continue && if key == Key::Char('n')
                || key == Key::Char('N') {
                starts_new_hand(t, t2)
            } else {
                t2 == t
            },
        }
    }
}

/// The key can be handled without running out of cards or overflowing the
/// chip count.
pub open spec fn key_safe(t: Table, key: Key) -> bool {
    &&& t.phase == Phase::Playing && !is_quit_key(key) && (key == Key::Char('h') || key
        == Key::Char('H')) ==> hit_safe(t)
    &&& t.phase == Phase::Playing && (key == Key::Char('s') || key == Key::Char('S'))
        ==> stand_safe(t)
}

} // verus!
