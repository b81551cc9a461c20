//! What the screen shows of the table: scores, the status bar, the tone of
//! the message, the corners of a card and where the cards of a hand go.
use vstd::prelude::*;

use crate::cards::{rank_label, Card};
use crate::game::Game;
use crate::hand::{hand_score, hand_value, lemma_ace_count_le_len};
use crate::rules::{Outcome, Phase, Table};
use crate::text::{append_decimal, append_signed, decimal, signed_decimal};

verus! {

/// How the message line is coloured.
#[derive(Clone, Copy, Debug, PartialEq, Eq, Structural)]
pub enum Tone {
    /// A won hand.
    Good,
    /// A lost hand.
    Bad,
    /// A push.
    Even,
    /// No hand has ended.
    Plain,
}

/// The tone of a hand's outcome.
pub open spec fn outcome_tone(outcome: Option<Outcome>) -> Tone {
    match outcome {
        Some(Outcome::Win) | Some(Outcome::Blackjack) | Some(Outcome::DealerBust) => Tone::Good,
        Some(Outcome::Bust) | Some(Outcome::Lose) => Tone::Bad,
        Some(Outcome::Push) => Tone::Even,
        None => Tone::Plain,
    }
}

/// A field's text, or `_` when it is empty.
pub open spec fn shown_or_blank(s: Seq<char>) -> Seq<char> {
    if s.len() == 0 {
        "_"@
    } else {
        s
    }
}

/// The status bar: what the player holds and which keys do what, by phase.
pub open spec fn status_text(t: Table) -> Seq<char> {
    match t.phase {
        Phase::Betting => "Current Balance: $"@ + signed_decimal(t.current_balance)
            + "  │  Chips: "@ + signed_decimal(t.chips) + "  │  Bet: "@ + shown_or_blank(
            t.bet_input,
        ) + "  │  [0-9] type bet  [Enter] deal  [Q] quit"@,
        Phase::Playing => "Chips: "@ + signed_decimal(t.chips) + "  │  Bet: "@ + signed_decimal(
            t.bet,
        ) + "  │  [H] hit  [S] stand  [Q] quit"@,
        Phase::Verification => "Chips: "@ + signed_decimal(t.chips) + "  │  Bet: "@
            + signed_decimal(t.bet) + "  │  Verify: "@ + shown_or_blank(t.verification_input)
            + "  │  [Enter] submit  [Q] quit"@,
        Phase::Result | Phase::DealerTurn => "Chips: "@ + signed_decimal(t.chips)
            + "  │  [N] new hand  [Q] quit"@,
    }
}

/// A label padded with spaces on the right to two characters.
pub open spec fn pad_right_2(s: Seq<char>) -> Seq<char> {
    if s.len() == 0 {
        "  "@
    } else if s.len() == 1 {
        s + " "@
    } else {
        s
    }
}

/// A label padded with spaces on the left to two characters.
pub open spec fn pad_left_2(s: Seq<char>) -> Seq<char> {
    if s.len() == 0 {
        "  "@
    } else if s.len() == 1 {
        " "@ + s
    } else {
        s
    }
}

/// The text in a face-up card's top-left corner row: the label, then
/// blanks to the card's inner width of five.
pub open spec fn top_corner(rank: u8) -> Seq<char> {
    pad_right_2(rank_label(rank)) + "   "@
}

/// The text in a face-up card's bottom-right corner row.
pub open spec fn bottom_corner(rank: u8) -> Seq<char> {
    "   "@ + pad_left_2(rank_label(rank))
}

/// Columns a card takes on screen, its border included.
pub const CARD_WIDTH: u16 = 7;

/// Blank columns between two cards.
pub const CARD_GAP: u16 = 1;

/// Rows a card takes on screen.
pub const CARD_HEIGHT: u16 = 5;

/// How many cards of a hand of `count` fit side by side in `width`
/// columns: the first card always, each later one only if it ends within
/// the width.
pub open spec fn cards_shown(width: int, count: int) -> int {
    if count <= 0 {
        0
    } else if width < 15 {
        1
    } else if count < 1 + (width - 7) / 8 {
        count
    } else {
        1 + (width - 7) / 8
    }
}

fn append_padded_right(s: &mut String, label: &str)
    ensures
        final(s)@ == old(s)@ + pad_right_2(label@),
{
    let n = label.unicode_len();
    if n == 0 {
        s.append("  ");
    } else if n == 1 {
        s.append(label);
        s.append(" ");
    } else {
        s.append(label);
    }
}

fn append_padded_left(s: &mut String, label: &str)
    ensures
        final(s)@ == old(s)@ + pad_left_2(label@),
{
    let n = label.unicode_len();
    if n == 0 {
        s.append("  ");
    } else if n == 1 {
        s.append(" ");
        s.append(label);
    } else {
        s.append(label);
    }
}

impl Card {
    /// The two corner rows of the face-up card: the label at the top left
    /// and at the bottom right, each five characters wide.
    pub fn corner_rows(&self) -> (rows: (String, String))
        ensures
            rows.0@ == top_corner(self.rank),
            rows.1@ == bottom_corner(self.rank),
    {
        let label = self.rank_str();
        let mut top = String::new();
        append_padded_right(&mut top, label);
        top.append("   ");
        let mut bottom = String::from_str("   ");
        append_padded_left(&mut bottom, label);
        assert(top@ =~= top_corner(self.rank));
        assert(bottom@ =~= bottom_corner(self.rank));
        (top, bottom)
    }
}

/// Placing the cards of a hand of `count` in an area starting at column
/// `left`, `width` columns wide, runs past the last column a terminal can
/// address: the area's right edge does, or the last card shown plus the
/// next card's width does.
pub open spec fn columns_overflow(left: int, width: int, count: int) -> bool {
    count > 0 && (left + width > u16::MAX || left + 8 * cards_shown(width, count) + 7 > u16::MAX)
}

/// With `i` cards placed, each after the first ending within the width,
/// at least `i` are shown, and exactly `i` once all are placed or the next
/// would not end within the width.
pub proof fn lemma_cards_shown_step(width: int, count: int, i: int)
    requires
        0 <= width,
        1 <= i <= count,
        i == 1 || 8 * (i - 1) + 7 <= width,
    ensures
        i <= cards_shown(width, count),
        (i == count || 8 * i + 7 > width) ==> cards_shown(width, count) == i,
{
    if width >= 15 {
        assert(i - 1 <= (width - 7) / 8) by (nonlinear_arith)
            requires
                width >= 15,
                i >= 1,
                i == 1 || 8 * (i - 1) + 7 <= width,
        ;
        assert(8 * i + 7 > width ==> i >= (width - 7) / 8 + 1) by (nonlinear_arith)
            requires
                width >= 15,
        ;
    } else {
        assert(i == 1);
    }
}

/// The columns at which the cards of a hand of `count` are drawn in an area
/// starting at column `left` and `width` columns wide: one card every eight
/// columns, the first always and each later one only if it ends within the
/// width. `None` when that placement runs past the last addressable column.
pub fn card_columns(left: u16, width: u16, count: usize) -> (xs: Option<Vec<u16>>)
    ensures
        xs is None <==> columns_overflow(left as int, width as int, count as int),
        xs matches Some(v) ==> v@.len() == cards_shown(width as int, count as int) && forall|i: int|
            0 <= i < v@.len() ==> #[trigger] v@[i] == left + 8 * i,
{
    if count == 0 {
        return Some(Vec::new());
    }
    let right = match left.checked_add(width) {
        Some(r) => r,
        None => {
            return None;
        },
    };
    let mut xs: Vec<u16> = Vec::new();
    let mut x: u16 = left;
    let mut i: usize = 0;
    loop
        invariant_except_break
            i < count,
            xs@.len() == i,
            x == left + 8 * i,
            i > 0 ==> 8 * i + 7 <= width,
        invariant
            right == left + width,
            forall|k: int| 0 <= k < xs@.len() ==> #[trigger] xs@[k] == left + 8 * k,
            i > 0 ==> i <= cards_shown(width as int, count as int),
        ensures
            xs@.len() == i,
            i == cards_shown(width as int, count as int),
            left + 8 * i + 7 <= u16::MAX,
        decreases count - i,
    {
        xs.push(x);
        i += 1;
        proof {
            lemma_cards_shown_step(width as int, count as int, i as int);
        }
        let next = match x.checked_add(CARD_WIDTH + CARD_GAP) {
            Some(n) => n,
            None => {
                return None;
            },
        };
        let edge = match next.checked_add(CARD_WIDTH) {
            Some(e) => e,
            None => {
                return None;
            },
        };
        x = next;
        if edge > right || i == count {
            break;
        }
    }
    Some(xs)
}

/// How many rows of a card are drawn in an area starting at row `top` and
/// `height` rows tall: all five if they fit, else as many as fit. `None`
/// when the area's bottom edge runs past the last addressable row.
pub fn card_rows(top: u16, height: u16) -> (rows: Option<u16>)
    ensures
        rows is None <==> top + height > u16::MAX,
        rows matches Some(r) ==> r as int == if height < 5 {
            height as int
        } else {
            5
        },
{
    if top.checked_add(height).is_none() {
        None
    } else if height < CARD_HEIGHT {
        Some(height)
    } else {
        Some(CARD_HEIGHT)
    }
}

/// The title of a hand's box: its label, then the score in brackets when
/// one is shown.
pub open spec fn hand_title_text(label: Seq<char>, score: Option<u8>) -> Seq<char> {
    match score {
        Some(s) => label + " ("@ + decimal(s as nat) + ")"@,
        None => label,
    }
}

/// The title of a hand's box, such as `Dealer (17)` or `You`.
pub fn hand_title(label: &str, score: Option<u8>) -> (title: String)
    ensures
        title@ == hand_title_text(label@, score),
{
    let mut title = String::from_str(label);
    match score {
        Some(s) => {
            title.append(" (");
            append_decimal(&mut title, s as u32);
            title.append(")");
        },
        None => {},
    }
    title
}

impl Game {
    /// While the player is still deciding the dealer's second card is dealt
    /// face down.
    pub fn hides_hole_card(&self) -> (hidden: bool)
        ensures
            hidden == (self.phase == Phase::Playing),
    {
        self.phase == Phase::Playing
    }

    /// The dealer's score as shown: hidden while the player is deciding.
    pub fn dealer_score(&self) -> (score: Option<u8>)
        requires
            self@.wf(),
        ensures
            self.phase == Phase::Playing ==> score is None,
            self.phase != Phase::Playing ==> score == Some(hand_score(self@.dealer) as u8),
    {
        if self.phase == Phase::Playing {
            None
        } else {
            proof {
                lemma_ace_count_le_len(self.dealer@);
            }
            Some(hand_value(self.dealer.as_slice()))
        }
    }

    /// The player's score as shown: none before any card is dealt.
    pub fn player_score(&self) -> (score: Option<u8>)
        requires
            self@.wf(),
        ensures
            self@.player.len() == 0 ==> score is None,
            self@.player.len() > 0 ==> score == Some(hand_score(self@.player) as u8),
    {
        if self.player.len() == 0 {
            None
        } else {
            proof {
                lemma_ace_count_le_len(self.player@);
            }
            Some(hand_value(self.player.as_slice()))
        }
    }

    /// The tone the message is shown in.
    pub fn message_tone(&self) -> (tone: Tone)
        ensures
            tone == outcome_tone(self.outcome),
    {
        match self.outcome {
            Some(Outcome::Win) | Some(Outcome::Blackjack) | Some(Outcome::DealerBust) => Tone::Good,
            Some(Outcome::Bust) | Some(Outcome::Lose) => Tone::Bad,
            Some(Outcome::Push) => Tone::Even,
            None => Tone::Plain,
        }
    }

    /// Out of chips: no new hand can be started.
    pub fn is_broke(&self) -> (broke: bool)
        ensures
            broke == (self.chips <= 0),
    {
        self.chips <= 0
    }

    /// The status bar for the current phase.
    pub fn status_line(&self) -> (line: String)
        ensures
            line@ == status_text(self@),
    {
        let mut line = String::new();
        match self.phase {
            Phase::Betting => {
                line.append("Current Balance: $");
                append_signed(&mut line, self.current_balance);
                line.append("  │  Chips: ");
                append_signed(&mut line, self.chips);
                line.append("  │  Bet: ");
                if self.bet_input.as_str().is_empty() {
                    line.append("_");
                } else {
                    line.append(self.bet_input.as_str());
                }
                line.append("  │  [0-9] type bet  [Enter] deal  [Q] quit");
            },
            Phase::Playing => {
                line.append("Chips: ");
                append_signed(&mut line, self.chips);
                line.append("  │  Bet: ");
                append_signed(&mut line, self.bet);
                line.append("  │  [H] hit  [S] stand  [Q] quit");
            },
            Phase::Verification => {
                line.append("Chips: ");
                append_signed(&mut line, self.chips);
                line.append("  │  Bet: ");
                append_signed(&mut line, self.bet);
                line.append("  │  Verify: ");
                if self.verification_input.as_str().is_empty() {
                    line.append("_");
                } else {
                    line.append(self.verification_input.as_str());
                }
                line.append("  │  [Enter] submit  [Q] quit");
            },
            Phase::Result | Phase::DealerTurn => {
                line.append("Chips: ");
                append_signed(&mut line, self.chips);
                line.append("  │  [N] new hand  [Q] quit");
            },
        }
        assert(line@ =~= status_text(self@));
        line
    }
}

} // verus!
