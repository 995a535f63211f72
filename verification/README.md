# karuta

The logic of a Karuta game server, verified with Verus.

- `src/game/state.rs`: one game: boards, the card being searched, guesses,
  and the laws of the game (what a guess takes off the boards, when a game ends).
- `src/game/index.rs`: the games in play, each under a random identifier.
  The games are held in two parallel vectors searched by identifier: the
  identifiers are strings, and for a map keyed by strings the library has no
  specification that its proofs could build on.
- `src/game/mod.rs`: configurations and what each game route answers.
- `src/deck.rs`, `src/categories.rs`, `src/theme.rs`: decks, cards, categories
  and themes, and the routes that look them up.
- `src/git_repos.rs`: repositories on GitHub, GitLab and Sourcehut: parsing their URLs,
  raw-file links, `.gitmodules` files, clone names.
- `src/text.rs`: character-level text handling.
- `app/`: the Rocket server around the library: HTTP, JSON, files, git and
  the network.
