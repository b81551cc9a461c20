# blackjack

Terminal blackjack. The rules live in a library whose contracts are proved
with Verus; a small ratatui/crossterm front end draws the table and passes
key presses to it.

- `src/cards.rs`: suits, cards, card labels and points.
- `src/hand.rs`: hand scoring (aces count 11 unless that busts the hand).
- `src/deck.rs`: the 52-card deck and its shuffle.
- `src/rules.rs`: the table as a mathematical state and every move as a
  function of it: dealing, hitting, standing, betting, the payment phrase
  and the keys.
- `src/game.rs`: the table itself; each move is proved to do what
  `rules.rs` says.
- `src/laws.rs`: properties of the rules across all states.
- `src/screen.rs`: what the screen shows: scores, status bar, hand titles,
  card corners and card placement.
- `src/layout.rs`: screen rectangles, the table's rows, a hand box's inner
  area and the centred popup area, cut by ratatui's layout solver.
- `src/text.rs`, `src/chance.rs`: decimal text, and the calls into the
  standard library and `rand` that the proofs take on trust.
- `app/main.rs`: the terminal loop and drawing.

Rules: start with 500 chips; type a bet with 0-9 and press Enter to deal
at that bet; H hits, S stands, N starts a new hand, Q quits. A natural
pays 1.5x (rounded down); the dealer stands on 17, soft 17 included.
