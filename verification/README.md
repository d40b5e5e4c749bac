# blacktext

A terminal blackjack table. The library (`src/`) holds the rules and the
table state, verified with Verus:

- `cards` — ranks, suits, the ordered 52-card deck and shuffled shoes
  (shuffling goes through `rand`; the library states that a shoe is a
  permutation of its decks).
- `game_state` — hands and their totals, the table rules (single deck with
  the dealer standing on all 17s, or a six-deck shoe with the dealer hitting
  soft 17), payouts, and the state of one table with its operations: betting,
  dealing, hitting, standing, doubling, the dealer's turn and settlement.
- `game_logic` — the dealer's drawing policy and how a finished hand is
  settled.
- `selection` — the actions offered to the player and the cursor over them.
- `app` — the key-driven application state (screens, cursor, status line).
- `laws` — properties of the library as a whole, proved.

`app/` is the terminal front end (ratatui): it reads keys, calls the library
and draws the screens.
