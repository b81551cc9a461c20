//! Blackjack: cards, hand scoring, the shoe and the table's rules, with
//! their contracts proved by Verus.
pub mod cards;
pub mod hand;
pub mod text;
pub mod chance;
pub mod deck;
pub mod rules;
pub mod game;
pub mod laws;
pub mod screen;
pub mod layout;
