# server

The rules engine of a team edition of the Citadels card game for four or
six players in two camps, 楚 (Chu) and 汉 (Han), with its proofs.

## Layout

- `src/` — the library, written in Verus and verified:
  - `domain/` — roles, cards, camps, colours, seats and the sets built on
    them, the operations and targets players choose, and the requests and
    answers exchanged with remote agents;
  - `deck.rs`, `player.rs`, `obs/` — the piles, the players and what each
    player observes;
  - `game.rs` and `game/` — the game as a state machine: `Game::step` takes
    the answer to the pending request and returns the next request, with
    the records and notices the change produced; `game/laws.rs` states what
    holds of every well-formed game;
  - `history.rs` — numbering of the history records;
  - `fa_agents/`, `fyi_agents/`, `id_gen.rs` — a random decision maker, the
    stand-ins, and the request counter.
- `tests/` — tests of the library.
- `app/` — the programs around it: a batch simulator, the websocket server,
  the history reader and remote agents over websocket or Redis (`sim`,
  `main`, `history`, `ws_agent`, `redis_agent`), with the JSON forms of the
  library's values.
