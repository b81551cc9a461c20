use blackjack::cards::{Card, Suit, SuitColor};
use blackjack::deck::build_deck;
use blackjack::hand::hand_value;
use blackjack::layout::{centered_rect, hand_inner, table_areas, Area};
use blackjack::screen::{card_columns, card_rows, hand_title};
use blackjack::text::{append_decimal, append_signed};

fn card(rank: u8) -> Card {
    Card { rank, suit: Suit::Spades }
}

fn hand(ranks: &[u8]) -> Vec<Card> {
    ranks.iter().map(|&r| card(r)).collect()
}

#[test]
fn suit_symbols_and_colors() {
    assert_eq!(Suit::Spades.symbol(), "♠");
    assert_eq!(Suit::Hearts.symbol(), "♥");
    assert_eq!(Suit::Diamonds.symbol(), "♦");
    assert_eq!(Suit::Clubs.symbol(), "♣");
    assert_eq!(Suit::Hearts.color(), SuitColor::Red);
    assert_eq!(Suit::Diamonds.color(), SuitColor::Red);
    assert_eq!(Suit::Spades.color(), SuitColor::White);
    assert_eq!(Suit::Clubs.color(), SuitColor::White);
}

#[test]
fn rank_labels() {
    let labels: Vec<&str> = (1u8..=13).map(|r| card(r).rank_str()).collect();
    assert_eq!(labels, vec!["A", "2", "3", "4", "5", "6", "7", "8", "9", "10", "J", "Q", "K"]);
    assert_eq!(card(0).rank_str(), "?");
    assert_eq!(card(14).rank_str(), "?");
}

#[test]
fn card_points() {
    assert_eq!(card(1).value(), 11);
    assert_eq!(card(7).value(), 7);
    assert_eq!(card(10).value(), 10);
    assert_eq!(card(11).value(), 10);
    assert_eq!(card(12).value(), 10);
    assert_eq!(card(13).value(), 10);
    assert_eq!(card(20).value(), 20);
}

#[test]
fn natural_scores_twenty_one() {
    assert_eq!(hand_value(&hand(&[1, 13])), 21);
    assert_eq!(hand_value(&hand(&[10, 1])), 21);
}

#[test]
fn two_aces_score_twelve() {
    assert_eq!(hand_value(&hand(&[1, 1])), 12);
}

#[test]
fn aces_soften_only_as_needed() {
    assert_eq!(hand_value(&hand(&[1, 1, 9])), 21);
    assert_eq!(hand_value(&hand(&[1, 5, 13])), 16);
    assert_eq!(hand_value(&hand(&[1, 6])), 17);
    assert_eq!(hand_value(&hand(&[1, 1, 1, 1])), 14);
}

#[test]
fn bust_counts_every_ace_low() {
    assert_eq!(hand_value(&hand(&[13, 12, 5])), 25);
    assert_eq!(hand_value(&hand(&[1, 13, 12, 5])), 26);
}

#[test]
fn empty_hand_scores_zero() {
    assert_eq!(hand_value(&[]), 0);
}

#[test]
fn hard_total_stops_at_cap() {
    let big = hand(&[10; 30]);
    assert_eq!(hand_value(&big), 255);
}

#[test]
fn fresh_deck_has_each_card_once() {
    let deck = build_deck();
    assert_eq!(deck.len(), 52);
    for suit in [Suit::Spades, Suit::Hearts, Suit::Diamonds, Suit::Clubs] {
        for rank in 1u8..=13 {
            let n = deck.iter().filter(|c| c.rank == rank && c.suit == suit).count();
            assert_eq!(n, 1);
        }
    }
}

#[test]
fn decimal_text() {
    let mut s = String::from("x=");
    append_decimal(&mut s, 0);
    assert_eq!(s, "x=0");
    let mut s = String::new();
    append_decimal(&mut s, 4_294_967_295);
    assert_eq!(s, "4294967295");
    let mut s = String::new();
    append_signed(&mut s, -500);
    assert_eq!(s, "-500");
    let mut s = String::new();
    append_signed(&mut s, i32::MIN);
    assert_eq!(s, "-2147483648");
}

#[test]
fn corner_rows_pad_labels() {
    let (top, bottom) = card(1).corner_rows();
    assert_eq!(top, "A    ");
    assert_eq!(bottom, "    A");
    let (top, bottom) = card(10).corner_rows();
    assert_eq!(top, "10   ");
    assert_eq!(bottom, "   10");
}

#[test]
fn cards_placed_every_eight_columns() {
    assert_eq!(card_columns(2, 40, 3), Some(vec![2, 10, 18]));
    assert_eq!(card_columns(2, 20, 5), Some(vec![2, 10]));
    assert_eq!(card_columns(0, 3, 4), Some(vec![0]));
    assert_eq!(card_columns(0, 40, 0), Some(Vec::<u16>::new()));
    assert_eq!(card_rows(1, 9), Some(5));
    assert_eq!(card_rows(1, 3), Some(3));
}

#[test]
fn placement_past_the_last_column_is_refused() {
    assert_eq!(card_columns(65530, 10, 1), None);
    assert_eq!(card_columns(65520, 10, 1), Some(vec![65520]));
    assert_eq!(card_columns(65521, 10, 1), None);
    assert_eq!(card_columns(65530, 10, 0), Some(Vec::<u16>::new()));
    assert_eq!(card_rows(65535, 1), None);
}

#[test]
fn hand_titles() {
    assert_eq!(hand_title("Dealer", Some(17)), "Dealer (17)");
    assert_eq!(hand_title("You", None), "You");
    assert_eq!(hand_title("You", Some(5)), "You (5)");
}

#[test]
fn popup_is_centred() {
    let whole = Area { x: 0, y: 0, width: 100, height: 100 };
    assert_eq!(centered_rect(50, 50, whole), Area { x: 25, y: 25, width: 50, height: 50 });
    let c = centered_rect(40, 30, Area { x: 10, y: 4, width: 80, height: 40 });
    assert!(c.x > 10 && c.y > 4);
    assert!(c.width < 80 && c.height < 40);
}

#[test]
fn score_ignores_order_and_suits() {
    let a = vec![
        Card { rank: 1, suit: Suit::Hearts },
        Card { rank: 9, suit: Suit::Clubs },
        Card { rank: 1, suit: Suit::Spades },
    ];
    let b = vec![
        Card { rank: 9, suit: Suit::Diamonds },
        Card { rank: 1, suit: Suit::Spades },
        Card { rank: 1, suit: Suit::Diamonds },
    ];
    assert_eq!(hand_value(&a), 21);
    assert_eq!(hand_value(&a), hand_value(&b));
}

#[test]
fn table_rows_and_hand_boxes() {
    let rows = table_areas(Area { x: 0, y: 0, width: 80, height: 40 });
    assert_eq!(rows.len(), 5);
    assert_eq!(rows[0], Area { x: 1, y: 1, width: 78, height: 3 });
    assert_eq!(rows[1], Area { x: 1, y: 4, width: 78, height: 9 });
    assert_eq!(hand_inner(Area { x: 1, y: 4, width: 78, height: 9 }), Some(Area { x: 3, y: 5, width: 74, height: 7 }));
    assert_eq!(hand_inner(Area { x: 0, y: 0, width: 3, height: 1 }), Some(Area { x: 2, y: 1, width: 0, height: 0 }));
    assert_eq!(hand_inner(Area { x: 65534, y: 0, width: 1, height: 1 }), None);
}
