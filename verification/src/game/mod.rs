
pub mod index;
pub mod sample;
pub mod state;

use vstd::prelude::*;

use crate::deck::{find_deck, has_deck_named, is_first_deck_named, copy_cards, Card, Deck, DeckSource};
use index::{GameId, GameIndex, GameIndexView};
use state::{boards_view, can_draw, moved_card, CardGuessResult, GameContinuation, GameStateView};

verus! {

/// How a game is played: whether players whose board is emptied keep playing
/// against the others ("free for all"), and how a guess is matched.
#[derive(Debug, Copy, Clone)]
pub struct GameConfig {
    pub has_ffa: bool,
    pub duplicate_policy: DuplicatePolicy,
}

/// Fields of a [`GameConfig`] that a game creation may override.
#[derive(Debug, Clone, Copy, PartialEq, Eq)]
pub struct GameConfigOverride {
    pub has_ffa: Option<bool>,
    pub duplicate_policy: Option<DuplicatePolicy>,
}

/// Which cards count as the one being searched.
#[derive(Debug, Clone, Copy, PartialEq, Eq, Structural)]
pub enum DuplicatePolicy {
    /// The guessed card must be the very card.
    MatchCard,
    /// The guessed card must be of the same anime and have the same number.
    MatchMusic,
    /// The guessed card must be of the same anime.
    MatchAnime,
}

/// What a client sends to create a game.
#[derive(Debug, Clone, PartialEq, Eq)]
pub struct GameData {
    pub deck_names: Vec<String>,
    pub config_override: Option<GameConfigOverride>,
}

/// The configuration that results from applying an override.
pub open spec fn overridden(config: GameConfig, config_override: GameConfigOverride) -> GameConfig {
    GameConfig {
        has_ffa: match config_override.has_ffa {
            Some(b) => b,
            None => config.has_ffa,
        },
        duplicate_policy: match config_override.duplicate_policy {
            Some(p) => p,
            None => config.duplicate_policy,
        },
    }
}

/// The configuration of games created without an override: free for all,
/// and a guess counts when it names the same music.
pub fn default_game_config() -> (c: GameConfig)
    ensures
        c.has_ffa,
        c.duplicate_policy == DuplicatePolicy::MatchMusic,
{
    GameConfig { has_ffa: true, duplicate_policy: DuplicatePolicy::MatchMusic }
}

/// The override that changes nothing leaves a configuration as it is.
pub proof fn law_default_override_keeps_config(config: GameConfig)
    ensures
        overridden(config, GameConfigOverride { has_ffa: None, duplicate_policy: None }) == config,
{
}

/// A creation request without an override keeps every field of the
/// configuration it is applied to.
pub proof fn law_request_without_override_keeps_default(config: GameConfig)
    ensures
        overridden(config, override_or_default(None)).has_ffa == config.has_ffa,
        overridden(config, override_or_default(None)).duplicate_policy == config.duplicate_policy,
        overridden(config, override_or_default(None)) == config,
{
}

/// Applying the same override twice is applying it once.
pub proof fn law_override_is_idempotent(config: GameConfig, config_override: GameConfigOverride)
    ensures
        overridden(overridden(config, config_override), config_override) == overridden(
            config,
            config_override,
        ),
{
}

/// Each field that an override sets takes the override's value; the others
/// keep theirs.
pub proof fn law_override_sets_given_fields(config: GameConfig, config_override: GameConfigOverride)
    ensures
        config_override.has_ffa matches Some(b) ==> overridden(config, config_override).has_ffa
            == b,
        config_override.has_ffa is None ==> overridden(config, config_override).has_ffa
            == config.has_ffa,
        config_override.duplicate_policy matches Some(p) ==> overridden(
            config,
            config_override,
        ).duplicate_policy == p,
        config_override.duplicate_policy is None ==> overridden(
            config,
            config_override,
        ).duplicate_policy == config.duplicate_policy,
{
}

impl GameConfig {
    /// Replaces each field that the override sets.
    pub fn apply_override(&mut self, config_override: GameConfigOverride)
        ensures
            *final(self) == overridden(*old(self), config_override),
    {
        if let Some(has_ffa) = config_override.has_ffa {
            self.has_ffa = has_ffa;
        }
        if let Some(duplicate_policy) = config_override.duplicate_policy {
            self.duplicate_policy = duplicate_policy;
        }
    }
}

impl Default for GameConfigOverride {
    /// The override that changes nothing.
    fn default() -> (r: GameConfigOverride)
        ensures
            r.has_ffa is None,
            r.duplicate_policy is None,
    {
        GameConfigOverride { has_ffa: None, duplicate_policy: None }
    }
}

/// The HTTP status of a reply.
#[derive(Debug, Clone, Copy, PartialEq, Eq, Structural)]
pub enum Status {
    Success,
    Created,
    BadRequest,
    NotFound,
    Gone,
}

impl Status {
    pub open spec fn spec_code(self) -> u16 {
        match self {
            Status::Success => 200,
            Status::Created => 201,
            Status::BadRequest => 400,
            Status::NotFound => 404,
            Status::Gone => 410,
        }
    }

    /// The numeric HTTP code.
    pub fn code(&self) -> (c: u16)
        ensures
            c == self.spec_code(),
    {
        match self {
            Status::Success => 200,
            Status::Created => 201,
            Status::BadRequest => 400,
            Status::NotFound => 404,
            Status::Gone => 410,
        }
    }
}

/// The messages that the game routes answer with.
#[derive(Debug, Clone, Copy, PartialEq, Eq, Structural)]
pub enum Message {
    DeckNotFound,
    GameNotFound,
    GameEnded,
    NoCardPlaying,
    PlayerNotFound,
    CardNotFound,
    Success,
}

impl Message {
    pub open spec fn spec_text(self) -> Seq<char> {
        match self {
            Message::DeckNotFound => "Deck not found"@,
            Message::GameNotFound => "Game not found"@,
            Message::GameEnded => "Game has ended"@,
            Message::NoCardPlaying => "No card currently playing"@,
            Message::PlayerNotFound => "Player not found"@,
            Message::CardNotFound => "Card not found"@,
            Message::Success => "Success"@,
        }
    }

    /// The text of the message.
    pub fn text(&self) -> (t: &'static str)
        ensures
            t@ == self.spec_text(),
    {
        match self {
            Message::DeckNotFound => "Deck not found",
            Message::GameNotFound => "Game not found",
            Message::GameEnded => "Game has ended",
            Message::NoCardPlaying => "No card currently playing",
            Message::PlayerNotFound => "Player not found",
            Message::CardNotFound => "Card not found",
            Message::Success => "Success",
        }
    }
}

/// A reply of a game route: its status and its body.
#[derive(Debug, Clone, PartialEq, Eq)]
pub struct Reply<T> {
    pub status: Status,
    pub body: T,
}

/// The override that a creation request carries, or the one that changes nothing.
pub open spec fn override_or_default(o: Option<GameConfigOverride>) -> GameConfigOverride {
    match o {
        Some(v) => v,
        None => GameConfigOverride { has_ffa: None, duplicate_policy: None },
    }
}

/// The position of the first deck named `name`.
pub open spec fn first_deck_index(decks: Seq<(DeckSource, Deck)>, name: Seq<char>) -> int {
    choose|i: int| is_first_deck_named(decks, name, i)
}

/// The boards of a game made of the first deck of each name.
pub open spec fn boards_of_named(decks: Seq<(DeckSource, Deck)>, names: Seq<Seq<char>>) -> Seq<Seq<Card>> {
    Seq::new(names.len(), |j: int| decks[first_deck_index(decks, names[j])].1.cards@)
}

/// The play route does not fail on the game under `id`: drawing a card is
/// refused or can be done.
pub open spec fn play_route_safe(index: GameIndexView, id: Seq<char>) -> bool {
    index.games.contains_key(id) ==> {
        let g = index.games[id];
        !g.has_ended() && g.current_card() is None ==> g.current_card_playing is None && can_draw(
            g.boards,
        )
    }
}

proof fn lemma_first_deck_index(decks: Seq<(DeckSource, Deck)>, name: Seq<char>, i: int)
    requires
        is_first_deck_named(decks, name, i),
    ensures
        first_deck_index(decks, name) == i,
{
    let k = first_deck_index(decks, name);
    assert(is_first_deck_named(decks, name, k));
    if k < i {
        assert(decks[k].1.name@ != name);
    } else if k > i {
        assert(decks[i].1.name@ != name);
    }
}

/// The cards of the first deck of each name, or `None` if a name has no deck.
fn collect_boards(decks: &Vec<(DeckSource, Deck)>, names: &Vec<String>) -> (r: Option<Vec<Vec<Card>>>)
    ensures
        r is None <==> exists|j: int|
            0 <= j < names@.len() && !has_deck_named(decks@, (#[trigger] names@[j])@),
        r matches Some(b) ==> boards_view(b@) == boards_of_named(
            decks@,
            names@.map_values(|n: String| n@),
        ),
{
    let ghost nv = names@.map_values(|n: String| n@);
    let mut boards: Vec<Vec<Card>> = Vec::new();
    let mut j: usize = 0;
    while j < names.len()
        invariant
            j <= names@.len(),
            nv == names@.map_values(|n: String| n@),
            boards_view(boards@) == boards_of_named(decks@, nv.take(j as int)),
            forall|k: int| 0 <= k < j ==> has_deck_named(decks@, (#[trigger] names@[k])@),
        decreases names@.len() - j,
    {
        match find_deck(decks, names[j].as_str()) {
            Some(i) => {
                proof {
                    lemma_first_deck_index(decks@, names@[j as int]@, i as int);
                }
                let ghost old_boards = boards@;
                let cards = copy_cards(&decks[i].1.cards);
                boards.push(cards);
                proof {
                    let prev = boards_view(old_boards);
                    assert(boards@ == old_boards.push(cards));
                    assert(prev.len() == j);
                    let next = boards_of_named(decks@, nv.take(j + 1));
                    assert(nv.take(j + 1)[j as int] == names@[j as int]@);
                    assert forall|k: int| 0 <= k < j + 1 implies boards_view(boards@)[k] == next[k] by {
                        if k < j {
                            assert(nv.take(j + 1)[k] == nv.take(j as int)[k]);
                            assert(boards@[k] == old_boards[k]);
                            assert(boards_view(boards@)[k] == prev[k]);
                        } else {
                            assert(boards@[k] == cards);
                        }
                    }
                    assert(boards_view(boards@) =~= next);
                }
            },
            None => {
                return None;
            },
        }
        j = j + 1;
    }
    assert(nv.take(names@.len() as int) =~= nv);
    Some(boards)
}

/// Creates a game of the decks named in `game_data`, with the default
/// configuration changed by the request's override.
pub fn create_game(
    game_index: &mut GameIndex,
    decks: &Vec<(DeckSource, Deck)>,
    game_data: &GameData,
) -> (r: Reply<Result<GameId, Message>>)
    ensures
        r.body is Err <==> exists|j: int|
            0 <= j < game_data.deck_names@.len() && !has_deck_named(
                decks@,
                (#[trigger] game_data.deck_names@[j])@,
            ),
        r.body is Err ==> r.status == Status::NotFound && r.body == Err::<GameId, Message>(
            Message::DeckNotFound,
        ) && final(game_index)@ == old(game_index)@,
        r.body matches Ok(id) ==> r.status == Status::Created && !old(game_index)@.games.contains_key(
            id@,
        ) && final(game_index)@ == (GameIndexView {
            games: old(game_index)@.games.insert(
                id@,
                GameStateView::initial(
                    overridden(
                        old(game_index)@.default_config,
                        override_or_default(game_data.config_override),
                    ),
                    boards_of_named(decks@, game_data.deck_names@.map_values(|n: String| n@)),
                ),
            ),
            default_config: old(game_index)@.default_config,
        }),
        game_data.config_override is None ==> (r.body matches Ok(id) ==> final(game_index)@.games[id@].config
            == old(game_index)@.default_config),
        game_data.config_override matches Some(o) ==> (r.body matches Ok(id) ==> final(
            game_index)@.games[id@].config == overridden(old(game_index)@.default_config, o)),
{
    match collect_boards(decks, &game_data.deck_names) {
        None => Reply { status: Status::NotFound, body: Err(Message::DeckNotFound) },
        Some(boards) => {
            let config_override = match game_data.config_override {
                Some(o) => o,
                None => GameConfigOverride::default(),
            };
            let game_id = game_index.create_game_with_config_override(boards, config_override);
            Reply { status: Status::Created, body: Ok(game_id) }
        },
    }
}

/// Creates a game of the two decks named `d1` and `d2`, with the default
/// configuration.
pub fn create_1v1_game(
    game_index: &mut GameIndex,
    decks: &Vec<(DeckSource, Deck)>,
    d1: &str,
    d2: &str,
) -> (r: Reply<Result<GameId, Message>>)
    ensures
        r.body is Ok <==> has_deck_named(decks@, d1@) && has_deck_named(decks@, d2@),
        r.body is Err ==> r.status == Status::NotFound && r.body == Err::<GameId, Message>(
            Message::DeckNotFound,
        ) && final(game_index)@ == old(game_index)@,
        r.body matches Ok(id) ==> r.status == Status::Created && !old(game_index)@.games.contains_key(
            id@,
        ) && final(game_index)@ == (GameIndexView {
            games: old(game_index)@.games.insert(
                id@,
                GameStateView::initial(
                    old(game_index)@.default_config,
                    seq![
                        decks@[first_deck_index(decks@, d1@)].1.cards@,
                        decks@[first_deck_index(decks@, d2@)].1.cards@,
                    ],
                ),
            ),
            default_config: old(game_index)@.default_config,
        }),
{
    let deck1 = find_deck(decks, d1);
    let deck2 = find_deck(decks, d2);
    match (deck1, deck2) {
        (Some(i1), Some(i2)) => {
            proof {
                lemma_first_deck_index(decks@, d1@, i1 as int);
                lemma_first_deck_index(decks@, d2@, i2 as int);
            }
            let mut boards: Vec<Vec<Card>> = Vec::new();
            boards.push(copy_cards(&decks[i1].1.cards));
            boards.push(copy_cards(&decks[i2].1.cards));
            assert(boards_view(boards@) =~= seq![
                decks@[i1 as int].1.cards@,
                decks@[i2 as int].1.cards@,
            ]);
            let game_id = game_index.create_game(boards);
            Reply { status: Status::Created, body: Ok(game_id) }
        },
        _ => Reply { status: Status::NotFound, body: Err(Message::DeckNotFound) },
    }
}

/// Whether the play route would fail on the game under `game_id`: a card is
/// to be drawn while the position of the searched card is stale or some board
/// is empty.
pub fn play_card_would_fail(game_index: &GameIndex, game_id: &GameId) -> (r: bool)
    ensures
        r == !play_route_safe(game_index@, game_id@),
{
    match game_index.find_game(game_id) {
        None => false,
        Some(game) => {
            if game.has_game_ended() || game.get_current_card_playing().is_some() {
                false
            } else {
                !game.can_play_card() || game.has_card_position()
            }
        },
    }
}

/// Shows the card being searched in the game `game_id`, drawing one first if
/// none is.
pub fn play_card(game_index: &mut GameIndex, game_id: &GameId) -> (r: Reply<Result<Card, Message>>)
    requires
        play_route_safe(old(game_index)@, game_id@),
    ensures
        ({
            let before = old(game_index)@;
            let after = final(game_index)@;
            if !before.games.contains_key(game_id@) {
                r == (Reply { status: Status::NotFound, body: Err::<Card, Message>(Message::GameNotFound) })
                    && after == before
            } else if before.games[game_id@].has_ended() {
                r == (Reply { status: Status::Gone, body: Err::<Card, Message>(Message::GameEnded) })
                    && after == before
            } else if before.games[game_id@].current_card() is Some {
                r == (Reply {
                    status: Status::Success,
                    body: Ok::<Card, Message>(before.games[game_id@].current_card()->0),
                }) && after == before
            } else {
                &&& r.status == Status::Created
                &&& exists|p: usize, c: usize|
                    #![trigger before.games[game_id@].with_card_playing(p, c)]
                    {
                        let g = before.games[game_id@].with_card_playing(p, c);
                        &&& g.current_in_range()
                        &&& r.body == Ok::<Card, Message>(g.current_card()->0)
                        &&& after == GameIndexView {
                            games: before.games.insert(game_id@, g),
                            default_config: before.default_config,
                        }
                    }
            }
        }),
{
    let ghost before = game_index@;
    match game_index.get_game(game_id) {
        None => Reply { status: Status::NotFound, body: Err(Message::GameNotFound) },
        Some(game) => {
            if game.has_game_ended() {
                assert(before.games.insert(game_id@, game@) =~= before.games);
                Reply { status: Status::Gone, body: Err(Message::GameEnded) }
            } else {
                match game.get_current_card_playing() {
                    Some(card) => {
                        let shown = card.copy();
                        assert(before.games.insert(game_id@, game@) =~= before.games);
                        Reply { status: Status::Success, body: Ok(shown) }
                    },
                    None => {
                        let _ = game.play_card();
                        let card = game.get_current_card_playing().unwrap().copy();
                        Reply { status: Status::Created, body: Ok(card) }
                    },
                }
            }
        },
    }
}

/// Checks a guess in the game `game_id`; the game leaves the index when the
/// guess ends it.
pub fn guess_card(game_index: &mut GameIndex, game_id: &GameId, card: Card) -> (r: Reply<
    Result<CardGuessResult, Message>,
>)
    ensures
        ({
            let before = old(game_index)@;
            let after = final(game_index)@;
            if !before.games.contains_key(game_id@) {
                r == (Reply {
                    status: Status::NotFound,
                    body: Err::<CardGuessResult, Message>(Message::GameNotFound),
                }) && after == before
            } else if before.games[game_id@].has_ended() {
                r == (Reply {
                    status: Status::Gone,
                    body: Err::<CardGuessResult, Message>(Message::GameEnded),
                }) && after == before
            } else if before.games[game_id@].current_card() is None {
                r == (Reply {
                    status: Status::BadRequest,
                    body: Err::<CardGuessResult, Message>(Message::NoCardPlaying),
                }) && after == before
            } else {
                let (g, answer) = before.games[game_id@].after_guess(card);
                &&& r == (Reply { status: Status::Success, body: Ok::<CardGuessResult, Message>(answer) })
                &&& answer != CardGuessResult::Correct(GameContinuation::End) ==> after == GameIndexView {
                    games: before.games.insert(game_id@, g),
                    default_config: before.default_config,
                }
                &&& answer == CardGuessResult::Correct(GameContinuation::End) ==> after
                    == GameIndexView {
                    games: before.games.remove(game_id@),
                    default_config: before.default_config,
                }
            }
        }),
{
    let ghost before = game_index@;
    let answer = match game_index.get_game(game_id) {
        None => {
            return Reply { status: Status::NotFound, body: Err(Message::GameNotFound) };
        },
        Some(game) => {
            if game.has_game_ended() {
                assert(before.games.insert(game_id@, game@) =~= before.games);
                return Reply { status: Status::Gone, body: Err(Message::GameEnded) };
            }
            if game.get_current_card_playing().is_none() {
                assert(before.games.insert(game_id@, game@) =~= before.games);
                return Reply { status: Status::BadRequest, body: Err(Message::NoCardPlaying) };
            }
            match game.guess_card(card) {
                Ok(answer) => answer,
                Err(_) => {
                    return Reply { status: Status::BadRequest, body: Err(Message::NoCardPlaying) };
                },
            }
        },
    };
    if answer != CardGuessResult::Correct(GameContinuation::End) {
        return Reply { status: Status::Success, body: Ok(answer) };
    }
    let ghost middle = game_index@;
    game_index.remove_game(game_id);
    assert(middle.games.remove(game_id@) =~= before.games.remove(game_id@));
    Reply { status: Status::Success, body: Ok(CardGuessResult::Correct(GameContinuation::End)) }
}

/// A copy of the boards.
pub fn copy_boards(boards: &Vec<Vec<Card>>) -> (r: Vec<Vec<Card>>)
    ensures
        boards_view(r@) == boards_view(boards@),
{
    let mut r: Vec<Vec<Card>> = Vec::new();
    let mut i: usize = 0;
    while i < boards.len()
        invariant
            i <= boards@.len(),
            r@.len() == i,
            boards_view(r@) == boards_view(boards@.take(i as int)),
        decreases boards@.len() - i,
    {
        let ghost old_r = r@;
        let b = copy_cards(&boards[i]);
        r.push(b);
        proof {
            assert(r@ == old_r.push(b));
            assert forall|k: int| 0 <= k < i + 1 implies boards_view(r@)[k] == boards_view(
                boards@.take(i + 1),
            )[k] by {
                if k < i {
                    assert(r@[k] == old_r[k]);
                    assert(boards_view(old_r)[k] == boards_view(boards@.take(i as int))[k]);
                }
            }
        }
        i = i + 1;
        assert(boards_view(r@) =~= boards_view(boards@.take(i as int)));
    }
    assert(boards@.take(boards@.len() as int) =~= boards@);
    r
}

/// The configuration of the game `game_id`.
pub fn get_game_config(game_index: &GameIndex, game_id: &GameId) -> (r: Reply<
    Result<GameConfig, Message>,
>)
    ensures
        r == (if game_index@.games.contains_key(game_id@) {
            Reply {
                status: Status::Created,
                body: Ok::<GameConfig, Message>(game_index@.games[game_id@].config),
            }
        } else {
            Reply { status: Status::NotFound, body: Err(Message::GameNotFound) }
        }),
{
    match game_index.find_game(game_id) {
        Some(game) => Reply { status: Status::Created, body: Ok(*game.get_config()) },
        None => Reply { status: Status::NotFound, body: Err(Message::GameNotFound) },
    }
}

/// How the game `game_id` goes on.
pub fn get_state(game_index: &GameIndex, game_id: &GameId) -> (r: Reply<
    Result<GameContinuation, Message>,
>)
    ensures
        r == (if game_index@.games.contains_key(game_id@) {
            Reply {
                status: Status::Created,
                body: Ok::<GameContinuation, Message>(
                    game_index@.games[game_id@].game_continuation,
                ),
            }
        } else {
            Reply { status: Status::NotFound, body: Err(Message::GameNotFound) }
        }),
{
    match game_index.find_game(game_id) {
        Some(game) => Reply { status: Status::Created, body: Ok(*game.get_game_continuation()) },
        None => Reply { status: Status::NotFound, body: Err(Message::GameNotFound) },
    }
}

/// The boards of the game `game_id`.
pub fn get_boards(game_index: &GameIndex, game_id: &GameId) -> (r: Reply<
    Result<Vec<Vec<Card>>, Message>,
>)
    ensures
        game_index@.games.contains_key(game_id@) ==> r.status == Status::Created && (r.body matches Ok(
            b,
        ) && boards_view(b@) == game_index@.games[game_id@].boards),
        !game_index@.games.contains_key(game_id@) ==> r == (Reply {
            status: Status::NotFound,
            body: Err::<Vec<Vec<Card>>, Message>(Message::GameNotFound),
        }),
{
    match game_index.find_game(game_id) {
        Some(game) => Reply { status: Status::Created, body: Ok(copy_boards(game.get_boards())) },
        None => Reply { status: Status::NotFound, body: Err(Message::GameNotFound) },
    }
}

/// The board of the player `player` in the game `game_id`.
pub fn get_player_board(game_index: &GameIndex, game_id: &GameId, player: usize) -> (r: Reply<
    Result<Vec<Card>, Message>,
>)
    ensures
        !game_index@.games.contains_key(game_id@) ==> r == (Reply {
            status: Status::NotFound,
            body: Err::<Vec<Card>, Message>(Message::GameNotFound),
        }),
        game_index@.games.contains_key(game_id@) && player >= game_index@.games[game_id@].boards.len()
            ==> r == (Reply {
            status: Status::NotFound,
            body: Err::<Vec<Card>, Message>(Message::PlayerNotFound),
        }),
        game_index@.games.contains_key(game_id@) && player < game_index@.games[game_id@].boards.len()
            ==> r.status == Status::Created && (r.body matches Ok(b) && b@
            == game_index@.games[game_id@].boards[player as int]),
{
    match game_index.find_game(game_id) {
        Some(game) => match game.get_player_board(player) {
            Some(board) => Reply { status: Status::Created, body: Ok(copy_cards(board)) },
            None => Reply { status: Status::NotFound, body: Err(Message::PlayerNotFound) },
        },
        None => Reply { status: Status::NotFound, body: Err(Message::GameNotFound) },
    }
}

/// Moves the card at `index_source` of the board of `player_source` to the end
/// of the board of `player_dest`, in the game `game_id`.
pub fn move_card(
    game_index: &mut GameIndex,
    game_id: &GameId,
    player_source: usize,
    index_source: usize,
    player_dest: usize,
) -> (r: Reply<Message>)
    ensures
        ({
            let before = old(game_index)@;
            let after = final(game_index)@;
            if !before.games.contains_key(game_id@) {
                r == (Reply { status: Status::NotFound, body: Message::GameNotFound }) && after
                    == before
            } else if before.games[game_id@].has_ended() {
                r == (Reply { status: Status::Gone, body: Message::GameEnded }) && after == before
            } else if player_source >= before.games[game_id@].boards.len() || player_dest
                >= before.games[game_id@].boards.len() {
                r == (Reply { status: Status::NotFound, body: Message::PlayerNotFound }) && after
                    == before
            } else if index_source >= before.games[game_id@].boards[player_source as int].len() {
                r == (Reply { status: Status::NotFound, body: Message::CardNotFound }) && after
                    == before
            } else {
                let g = before.games[game_id@];
                &&& r == (Reply { status: Status::Success, body: Message::Success })
                &&& after == GameIndexView {
                    games: before.games.insert(
                        game_id@,
                        GameStateView {
                            boards: moved_card(
                                g.boards,
                                player_source as int,
                                index_source as int,
                                player_dest as int,
                            ),
                            ..g
                        },
                    ),
                    default_config: before.default_config,
                }
            }
        }),
{
    let ghost before = game_index@;
    match game_index.get_game(game_id) {
        None => Reply { status: Status::NotFound, body: Message::GameNotFound },
        Some(game) => {
            if game.has_game_ended() {
                assert(before.games.insert(game_id@, game@) =~= before.games);
                return Reply { status: Status::Gone, body: Message::GameEnded };
            }
            let ghost g = game@;
            let boards = game.get_boards_mut();
            if player_source >= boards.len() || player_dest >= boards.len() {
                assert(before.games.insert(game_id@, g) =~= before.games);
                return Reply { status: Status::NotFound, body: Message::PlayerNotFound };
            }
            if index_source >= boards[player_source].len() {
                assert(before.games.insert(game_id@, g) =~= before.games);
                return Reply { status: Status::NotFound, body: Message::CardNotFound };
            }
            let ghost b0 = boards@;
            let card = boards[player_source].remove(index_source);
            boards[player_dest].push(card);
            assert(boards_view(boards@) =~= moved_card(
                g.boards,
                player_source as int,
                index_source as int,
                player_dest as int,
            ));
            Reply { status: Status::Success, body: Message::Success }
        },
    }
}

} // verus!
