//! Suits, cards and what a single card is worth.
use vstd::prelude::*;

verus! {

/// One of the four French suits.
#[derive(Clone, Copy, Debug, PartialEq, Eq, Structural)]
pub enum Suit {
    Spades,
    Hearts,
    Diamonds,
    Clubs,
}

/// The ink a suit is printed in.
#[derive(Clone, Copy, Debug, PartialEq, Eq, Structural)]
pub enum SuitColor {
    Red,
    White,
}

/// The glyph of a suit.
pub open spec fn suit_glyph(suit: Suit) -> Seq<char> {
    match suit {
        Suit::Spades => "♠"@,
        Suit::Hearts => "♥"@,
        Suit::Diamonds => "♦"@,
        Suit::Clubs => "♣"@,
    }
}

/// Hearts and diamonds are red, spades and clubs white.
pub open spec fn suit_color(suit: Suit) -> SuitColor {
    match suit {
        Suit::Hearts | Suit::Diamonds => SuitColor::Red,
        Suit::Spades | Suit::Clubs => SuitColor::White,
    }
}

impl Suit {
    /// The glyph printed on a card of this suit.
    pub fn symbol(&self) -> (s: &'static str)
        ensures
            s@ == suit_glyph(*self),
    {
        match self {
            Suit::Spades => "♠",
            Suit::Hearts => "♥",
            Suit::Diamonds => "♦",
            Suit::Clubs => "♣",
        }
    }

    /// The colour a card of this suit is drawn in.
    pub fn color(&self) -> (c: SuitColor)
        ensures
            c == suit_color(*self),
    {
        match self {
            Suit::Hearts | Suit::Diamonds => SuitColor::Red,
            Suit::Spades | Suit::Clubs => SuitColor::White,
        }
    }
}

/// A playing card: rank 1 is the ace, 11, 12 and 13 are jack, queen, king.
#[derive(Clone, Copy, Debug, PartialEq, Eq, Structural)]
pub struct Card {
    pub rank: u8,
    pub suit: Suit,
}

/// The label printed in a card's corner; a rank outside 1..=13 shows `?`.
pub open spec fn rank_label(rank: u8) -> Seq<char> {
    if rank == 1 {
        "A"@
    } else if rank == 11 {
        "J"@
    } else if rank == 12 {
        "Q"@
    } else if rank == 13 {
        "K"@
    } else if rank == 2 {
        "2"@
    } else if rank == 3 {
        "3"@
    } else if rank == 4 {
        "4"@
    } else if rank == 5 {
        "5"@
    } else if rank == 6 {
        "6"@
    } else if rank == 7 {
        "7"@
    } else if rank == 8 {
        "8"@
    } else if rank == 9 {
        "9"@
    } else if rank == 10 {
        "10"@
    } else {
        "?"@
    }
}

/// Points a card of this rank counts before any ace is softened: an ace
/// counts 11, a face card 10, any other rank its own number.
pub open spec fn card_points(rank: u8) -> int {
    if rank == 1 {
        11
    } else if 11 <= rank <= 13 {
        10
    } else {
        rank as int
    }
}

impl Card {
    /// The label in the card's corner.
    pub fn rank_str(&self) -> (s: &'static str)
        ensures
            s@ == rank_label(self.rank),
    {
        match self.rank {
            1 => "A",
            11 => "J",
            12 => "Q",
            13 => "K",
            _ => match self.rank {
                2 => "2",
                3 => "3",
                4 => "4",
                5 => "5",
                6 => "6",
                7 => "7",
                8 => "8",
                9 => "9",
                10 => "10",
                _ => "?",
            },
        }
    }

    /// Points the card counts with every ace taken as 11.
    pub fn value(&self) -> (v: u8)
        ensures
            v == card_points(self.rank),
    {
        match self.rank {
            1 => 11,
            11 | 12 | 13 => 10,
            n => n,
        }
    }
}

} // verus!
