# The Unreliable Fellowship

A web board/card game about bumbling wizards travelling with a caravan for
twenty days: each day every wizard plans a move, an event action and a card;
when all plans are in, the day resolves, the night restores energy and the
caravan moves two rows down a travelling board of event tiles. The wizard with
the most Glory at the final camp wins.

## Layout

- `src/` — the rules, verified with Verus.
  - `model.rs`: positions, tiles, wizards, cards, plans and client views, with
    their mathematical views; movement cost.
  - `cards.rs`: card definitions and reagent payments.
  - `rules.rs`: the whole game as spec functions over `GameV` (joining,
    steps, card effects, events, upkeep, the caravan's advance, a day, what a
    viewer is shown).
  - `game.rs`: `Game`, the executable state (plain vectors and a hash map of
    plans), each operation proved to do
    exactly what `rules.rs` says and to keep the invariant of
    `invariants.rs`.
  - `board.rs`: the shape of the board and how each rule keeps it.
  - `frame.rs`, `invariants.rs`: the invariant and the facts that keep a
    day's arithmetic in range.
  - `commands.rs`: what the server does with a client command.
  - `ai.rs`: the fallback plan for AI wizards and reading a model's JSON
    answer (through `serde_json`).
  - `client.rs`: the turn panel's and board's decisions.
  - `laws.rs`: properties stated over all inputs.
  - `messages.rs`, `text.rs`: log texts and string helpers.
- `tests/` — tests on concrete games and answers.
- `app/` — the Dioxus fullstack server and UI, the HTTP call to the model and
  the serde copies of the library's types.
