use vstd::prelude::*;

use super::state::{boards_view, GameState, GameStateView};
use super::{overridden, GameConfig, GameConfigOverride};
use crate::deck::Card;
use crate::rng::{is_alphanumeric, random_alphanumeric};
use crate::text::string_of;
use vstd::relations::injective_on;
use vstd::set_lib::{lemma_int_range, lemma_len_subset, lemma_map_size, set_int_range};

verus! {

/// The length of the identifiers drawn for new games.
pub const GAME_ID_LENGTH: usize = 16;

/// How many identifiers are drawn at most before one is searched for in order.
const ID_DRAWS: u32 = 64;

pub type GameId = String;

/// The games currently being played on the server, each under its identifier.
#[derive(Debug)]
pub struct GameIndex {
    ids: Vec<GameId>,
    games: Vec<GameState>,
    default_config: GameConfig,
}

/// The mathematical model of a [`GameIndex`]: the game under each identifier,
/// and the configuration that new games get.
pub struct GameIndexView {
    pub games: Map<Seq<char>, GameStateView>,
    pub default_config: GameConfig,
}

/// `k` is the identifier at some position of `ids`.
pub open spec fn has_id(ids: Seq<String>, k: Seq<char>) -> bool {
    exists|i: int| 0 <= i < ids.len() && (#[trigger] ids[i])@ == k
}

/// The map from identifiers to games held in the two parallel lists.
pub open spec fn games_map(ids: Seq<String>, games: Seq<GameState>) -> Map<Seq<char>, GameStateView> {
    Map::new(
        |k: Seq<char>| has_id(ids, k),
        |k: Seq<char>| games[choose|i: int| 0 <= i < ids.len() && (#[trigger] ids[i])@ == k]@,
    )
}

/// No identifier occurs twice.
pub open spec fn distinct_ids(ids: Seq<String>) -> bool {
    forall|i: int, j: int| 0 <= i < ids.len() && 0 <= j < ids.len() && i != j ==> (
    #[trigger] ids[i])@ != (#[trigger] ids[j])@
}

/// An identifier of [`GAME_ID_LENGTH`] ASCII letters and digits.
pub open spec fn is_game_id(k: Seq<char>) -> bool {
    k.len() == GAME_ID_LENGTH && forall|c: int| 0 <= c < k.len() ==> is_alphanumeric(#[trigger] k[c])
}

/// The hexadecimal digit `d`, `0`-`9` then `a`-`f`.
pub open spec fn hex_char(d: int) -> char {
    if d == 0 {
        '0'
    } else if d == 1 {
        '1'
    } else if d == 2 {
        '2'
    } else if d == 3 {
        '3'
    } else if d == 4 {
        '4'
    } else if d == 5 {
        '5'
    } else if d == 6 {
        '6'
    } else if d == 7 {
        '7'
    } else if d == 8 {
        '8'
    } else if d == 9 {
        '9'
    } else if d == 10 {
        'a'
    } else if d == 11 {
        'b'
    } else if d == 12 {
        'c'
    } else if d == 13 {
        'd'
    } else if d == 14 {
        'e'
    } else {
        'f'
    }
}

/// Sixteen to the power `n`.
pub open spec fn pow16(n: nat) -> nat
    decreases n,
{
    if n == 0 {
        1
    } else {
        16 * pow16((n - 1) as nat)
    }
}

/// The last `len` hexadecimal digits of `k`.
pub open spec fn hex_of(k: nat, len: nat) -> Seq<char>
    decreases len,
{
    if len == 0 {
        Seq::empty()
    } else {
        hex_of(k / 16, (len - 1) as nat).push(hex_char((k % 16) as int))
    }
}

proof fn lemma_hex_of_shape(k: nat, len: nat)
    ensures
        hex_of(k, len).len() == len,
        forall|c: int| 0 <= c < len ==> is_alphanumeric(#[trigger] hex_of(k, len)[c]),
    decreases len,
{
    if len > 0 {
        lemma_hex_of_shape(k / 16, (len - 1) as nat);
        let d = (k % 16) as int;
        assert(is_alphanumeric(hex_char(d)));
        assert forall|c: int| 0 <= c < len implies is_alphanumeric(#[trigger] hex_of(k, len)[c]) by {
            if c < len - 1 {
                assert(hex_of(k, len)[c] == hex_of(k / 16, (len - 1) as nat)[c]);
            }
        }
    }
}

proof fn lemma_hex_of_injective(a: nat, b: nat, len: nat)
    requires
        a < pow16(len),
        b < pow16(len),
        hex_of(a, len) == hex_of(b, len),
    ensures
        a == b,
    decreases len,
{
    if len > 0 {
        let m = pow16((len - 1) as nat);
        lemma_hex_of_shape(a / 16, (len - 1) as nat);
        lemma_hex_of_shape(b / 16, (len - 1) as nat);
        assert(hex_of(a / 16, (len - 1) as nat) =~= hex_of(a, len).drop_last());
        assert(hex_of(b / 16, (len - 1) as nat) =~= hex_of(b, len).drop_last());
        assert(hex_of(a, len).last() == hex_char((a % 16) as int));
        assert(hex_of(b, len).last() == hex_char((b % 16) as int));
        assert(a % 16 == b % 16);
        assert(a / 16 < m) by (nonlinear_arith)
            requires
                a < 16 * m,
        ;
        assert(b / 16 < m) by (nonlinear_arith)
            requires
                b < 16 * m,
        ;
        lemma_hex_of_injective(a / 16, b / 16, (len - 1) as nat);
        assert(a == 16 * (a / 16) + a % 16) by (nonlinear_arith);
        assert(b == 16 * (b / 16) + b % 16) by (nonlinear_arith);
    }
}

proof fn lemma_pow16_covers_u64()
    ensures
        pow16(GAME_ID_LENGTH as nat) > u64::MAX,
{
    reveal_with_fuel(pow16, 17);
}

/// Among the identifiers `hex_of(k, GAME_ID_LENGTH)` for `k` from `0` to the
/// number of identifiers in use, one is not in use.
proof fn lemma_some_hex_id_unused(ids: Seq<String>)
    requires
        ids.len() <= u64::MAX,
    ensures
        exists|k: nat| k <= ids.len() && !has_id(ids, #[trigger] hex_of(k, GAME_ID_LENGTH as nat)),
{
    let n = ids.len();
    lemma_pow16_covers_u64();
    if forall|k: nat| k <= n ==> has_id(ids, #[trigger] hex_of(k, GAME_ID_LENGTH as nat)) {
        let f = |k: int| choose|i: int| 0 <= i < ids.len() && (#[trigger] ids[i])@ == hex_of(k as nat, GAME_ID_LENGTH as nat);
        let x = set_int_range(0, n + 1 as int);
        let y = x.map(f);
        assert forall|k: int| x.contains(k) implies 0 <= #[trigger] f(k) < n && ids[f(k)]@ == hex_of(k as nat, GAME_ID_LENGTH as nat) by {
            assert(has_id(ids, hex_of(k as nat, GAME_ID_LENGTH as nat)));
        }
        assert(injective_on(f, x)) by {
            assert forall|k1: int, k2: int| x.contains(k1) && x.contains(k2) && #[trigger] f(k1) == #[trigger] f(k2) implies k1 == k2 by {
                lemma_hex_of_injective(k1 as nat, k2 as nat, GAME_ID_LENGTH as nat);
            }
        }
        lemma_int_range(0, n + 1 as int);
        lemma_int_range(0, n as int);
        lemma_map_size(x, y, f);
        assert(y.subset_of(set_int_range(0, n as int)));
        lemma_len_subset(y, set_int_range(0, n as int));
    }
}

/// The hexadecimal digit `d`.
fn hex_char_of(d: u64) -> (c: char)
    requires
        d < 16,
    ensures
        c == hex_char(d as int),
{
    if d == 0 {
        '0'
    } else if d == 1 {
        '1'
    } else if d == 2 {
        '2'
    } else if d == 3 {
        '3'
    } else if d == 4 {
        '4'
    } else if d == 5 {
        '5'
    } else if d == 6 {
        '6'
    } else if d == 7 {
        '7'
    } else if d == 8 {
        '8'
    } else if d == 9 {
        '9'
    } else if d == 10 {
        'a'
    } else if d == 11 {
        'b'
    } else if d == 12 {
        'c'
    } else if d == 13 {
        'd'
    } else if d == 14 {
        'e'
    } else {
        'f'
    }
}

/// The last `len` hexadecimal digits of `k`.
fn hex_chars(k: u64, len: usize) -> (v: Vec<char>)
    ensures
        v@ == hex_of(k as nat, len as nat),
    decreases len,
{
    if len == 0 {
        Vec::new()
    } else {
        let mut v = hex_chars(k / 16, len - 1);
        v.push(hex_char_of(k % 16));
        v
    }
}

proof fn lemma_games_map_at(ids: Seq<String>, games: Seq<GameState>, i: int)
    requires
        distinct_ids(ids),
        0 <= i < ids.len(),
    ensures
        games_map(ids, games).contains_key(ids[i]@),
        games_map(ids, games)[ids[i]@] == games[i]@,
{
    let k = ids[i]@;
    assert(has_id(ids, k));
    let j = choose|j: int| 0 <= j < ids.len() && (#[trigger] ids[j])@ == k;
    assert(j == i);
}

proof fn lemma_games_map_update(ids: Seq<String>, games: Seq<GameState>, i: int, g: GameState)
    requires
        distinct_ids(ids),
        ids.len() == games.len(),
        0 <= i < ids.len(),
    ensures
        games_map(ids, games.update(i, g)) == games_map(ids, games).insert(ids[i]@, g@),
{
    let m1 = games_map(ids, games.update(i, g));
    let m2 = games_map(ids, games).insert(ids[i]@, g@);
    assert forall|k: Seq<char>| m1.contains_key(k) <==> m2.contains_key(k) by {
        if k == ids[i]@ {
            assert(has_id(ids, k));
        }
    }
    assert forall|k: Seq<char>| m1.contains_key(k) implies m1[k] == m2[k] by {
        let j = choose|j: int| 0 <= j < ids.len() && (#[trigger] ids[j])@ == k;
        lemma_games_map_at(ids, games.update(i, g), j);
        lemma_games_map_at(ids, games, j);
    }
    assert(m1 =~= m2);
}

proof fn lemma_games_map_push(ids: Seq<String>, games: Seq<GameState>, id: String, g: GameState)
    requires
        distinct_ids(ids),
        ids.len() == games.len(),
        !has_id(ids, id@),
    ensures
        distinct_ids(ids.push(id)),
        games_map(ids.push(id), games.push(g)) == games_map(ids, games).insert(id@, g@),
{
    let ids2 = ids.push(id);
    let games2 = games.push(g);
    assert forall|i: int, j: int|
        0 <= i < ids2.len() && 0 <= j < ids2.len() && i != j implies (#[trigger] ids2[i])@ != (
    #[trigger] ids2[j])@ by {
        if i == ids.len() {
            assert(ids2[j] == ids[j]);
        } else if j == ids.len() {
            assert(ids2[i] == ids[i]);
        }
    }
    let m1 = games_map(ids2, games2);
    let m2 = games_map(ids, games).insert(id@, g@);
    assert forall|k: Seq<char>| m1.contains_key(k) <==> m2.contains_key(k) by {
        if has_id(ids2, k) {
            let j = choose|j: int| 0 <= j < ids2.len() && (#[trigger] ids2[j])@ == k;
            if j < ids.len() {
                assert(ids2[j] == ids[j]);
            }
        }
        if has_id(ids, k) {
            let j = choose|j: int| 0 <= j < ids.len() && (#[trigger] ids[j])@ == k;
            assert(ids2[j] == ids[j]);
        }
        if k == id@ {
            assert(ids2[ids.len() as int] == id);
        }
    }
    assert forall|k: Seq<char>| m1.contains_key(k) implies m1[k] == m2[k] by {
        let j = choose|j: int| 0 <= j < ids2.len() && (#[trigger] ids2[j])@ == k;
        lemma_games_map_at(ids2, games2, j);
        if j < ids.len() {
            assert(ids2[j] == ids[j]);
            lemma_games_map_at(ids, games, j);
        }
    }
    assert(m1 =~= m2);
}

proof fn lemma_games_map_remove(ids: Seq<String>, games: Seq<GameState>, i: int)
    requires
        distinct_ids(ids),
        ids.len() == games.len(),
        0 <= i < ids.len(),
    ensures
        distinct_ids(ids.remove(i)),
        games_map(ids.remove(i), games.remove(i)) == games_map(ids, games).remove(ids[i]@),
{
    let ids2 = ids.remove(i);
    let games2 = games.remove(i);
    assert forall|a: int, b: int|
        0 <= a < ids2.len() && 0 <= b < ids2.len() && a != b implies (#[trigger] ids2[a])@ != (
    #[trigger] ids2[b])@ by {
        let a0 = if a < i { a } else { a + 1 };
        let b0 = if b < i { b } else { b + 1 };
        assert(ids2[a] == ids[a0]);
        assert(ids2[b] == ids[b0]);
    }
    let m1 = games_map(ids2, games2);
    let m2 = games_map(ids, games).remove(ids[i]@);
    assert forall|k: Seq<char>| m1.contains_key(k) <==> m2.contains_key(k) by {
        if has_id(ids2, k) {
            let a = choose|a: int| 0 <= a < ids2.len() && (#[trigger] ids2[a])@ == k;
            let a0 = if a < i { a } else { a + 1 };
            assert(ids2[a] == ids[a0]);
        }
        if has_id(ids, k) && k != ids[i]@ {
            let a0 = choose|a: int| 0 <= a < ids.len() && (#[trigger] ids[a])@ == k;
            let a = if a0 < i { a0 } else { a0 - 1 };
            assert(ids2[a] == ids[a0]);
        }
    }
    assert forall|k: Seq<char>| m1.contains_key(k) implies m1[k] == m2[k] by {
        let a = choose|a: int| 0 <= a < ids2.len() && (#[trigger] ids2[a])@ == k;
        let a0 = if a < i { a } else { a + 1 };
        assert(ids2[a] == ids[a0]);
        assert(games2[a] == games[a0]);
        lemma_games_map_at(ids2, games2, a);
        lemma_games_map_at(ids, games, a0);
    }
    assert(m1 =~= m2);
}

/// A game just created is found under its identifier, as it was created, and
/// every game that was there before is still there, unchanged.
pub proof fn law_created_game_is_found(before: GameIndexView, id: Seq<char>, game: GameStateView)
    requires
        !before.games.contains_key(id),
    ensures
        before.games.insert(id, game).contains_key(id),
        before.games.insert(id, game)[id] == game,
        forall|k: Seq<char>|
            #![trigger before.games.insert(id, game)[k]]
            before.games.contains_key(k) ==> before.games.insert(id, game).contains_key(k)
                && before.games.insert(id, game)[k] == before.games[k],
{
}

/// Two games created one after the other get different identifiers.
pub proof fn law_created_ids_differ(
    before: GameIndexView,
    first: Seq<char>,
    game: GameStateView,
    second: Seq<char>,
)
    requires
        !before.games.contains_key(first),
        !before.games.insert(first, game).contains_key(second),
    ensures
        first != second,
{
}

/// A removed game is no longer found, and the other games stay as they were.
pub proof fn law_removed_game_is_gone(before: GameIndexView, id: Seq<char>)
    ensures
        !before.games.remove(id).contains_key(id),
        forall|k: Seq<char>|
            #![trigger before.games.remove(id)[k]]
            k != id && before.games.contains_key(k) ==> before.games.remove(id).contains_key(k)
                && before.games.remove(id)[k] == before.games[k],
{
}

impl View for GameIndex {
    type V = GameIndexView;

    closed spec fn view(&self) -> GameIndexView {
        GameIndexView {
            games: games_map(self.ids@, self.games@),
            default_config: self.default_config,
        }
    }
}

impl GameIndex {
    /// The invariant of the index: one game per identifier, each identifier
    /// present once and made of ASCII letters and digits.
    #[verifier::type_invariant]
    closed spec fn wf(&self) -> bool {
        &&& self.ids@.len() == self.games@.len()
        &&& distinct_ids(self.ids@)
        &&& forall|i: int| 0 <= i < self.ids@.len() ==> is_game_id((#[trigger] self.ids@[i])@)
    }

    /// An index with no game.
    pub fn new(default_config: GameConfig) -> (r: Self)
        ensures
            r@.games == Map::<Seq<char>, GameStateView>::empty(),
            r@.default_config == default_config,
    {
        let r = GameIndex { ids: Vec::new(), games: Vec::new(), default_config };
        assert(r@.games =~= Map::<Seq<char>, GameStateView>::empty());
        r
    }

    /// The position of `game_id` in the index, if it is there.
    fn position(&self, game_id: &GameId) -> (r: Option<usize>)
        requires
            self.wf(),
        ensures
            r is None <==> !self@.games.contains_key(game_id@),
            r matches Some(i) ==> i < self.ids@.len() && self.ids@[i as int]@ == game_id@,
    {
        let mut i: usize = 0;
        while i < self.ids.len()
            invariant
                i <= self.ids@.len(),
                forall|j: int| 0 <= j < i ==> (#[trigger] self.ids@[j])@ != game_id@,
            decreases self.ids@.len() - i,
        {
            if self.ids[i] == *game_id {
                return Some(i);
            }
            i = i + 1;
        }
        None
    }

    /// The first of the identifiers `0000000000000000`, `0000000000000001`, ...
    /// (in hexadecimal) that is not in use: there are more of them than
    /// identifiers in use.
    fn unused_id(&self) -> (id: GameId)
        requires
            self.wf(),
        ensures
            !self@.games.contains_key(id@),
            is_game_id(id@),
    {
        let n = self.ids.len();
        proof {
            lemma_some_hex_id_unused(self.ids@);
        }
        let mut k: usize = 0;
        while k < n
            invariant
                self.wf(),
                n == self.ids@.len(),
                k <= n,
                forall|j: nat| j < k ==> has_id(self.ids@, #[trigger] hex_of(j, GAME_ID_LENGTH as nat)),
            decreases n - k,
        {
            let id = string_of(&hex_chars(k as u64, GAME_ID_LENGTH));
            if self.position(&id).is_none() {
                proof {
                    lemma_hex_of_shape(k as nat, GAME_ID_LENGTH as nat);
                }
                return id;
            }
            assert(has_id(self.ids@, hex_of(k as nat, GAME_ID_LENGTH as nat)));
            k = k + 1;
        }
        let id = string_of(&hex_chars(n as u64, GAME_ID_LENGTH));
        proof {
            lemma_hex_of_shape(n as nat, GAME_ID_LENGTH as nat);
            let k0 = choose|k0: nat| k0 <= n && !has_id(self.ids@, #[trigger] hex_of(k0, GAME_ID_LENGTH as nat));
            if k0 < n {
                assert(has_id(self.ids@, hex_of(k0, GAME_ID_LENGTH as nat)));
            }
        }
        id
    }

    /// Draws identifiers of [`GAME_ID_LENGTH`] letters and digits until one is
    /// not in use; should [`ID_DRAWS`] draws all hit identifiers in use, the
    /// first unused hexadecimal identifier of that length is taken instead.
    fn generate_game_id(&self) -> (id: GameId)
        requires
            self.wf(),
        ensures
            !self@.games.contains_key(id@),
            is_game_id(id@),
    {
        let mut draws: u32 = 0;
        while draws < ID_DRAWS
            invariant
                self.wf(),
            decreases ID_DRAWS - draws,
        {
            let id = random_alphanumeric(GAME_ID_LENGTH);
            if self.position(&id).is_none() {
                return id;
            }
            draws = draws + 1;
        }
        self.unused_id()
    }

    proof fn lemma_insert(&self, id: GameId, g: GameState, next: GameIndex)
        requires
            self.wf(),
            !self@.games.contains_key(id@),
            is_game_id(id@),
            next.ids@ == self.ids@.push(id),
            next.games@ == self.games@.push(g),
            next.default_config == self.default_config,
        ensures
            next.wf(),
            next@ == (GameIndexView {
                games: self@.games.insert(id@, g@),
                default_config: self@.default_config,
            }),
    {
        lemma_games_map_push(self.ids@, self.games@, id, g);
        assert forall|i: int| 0 <= i < next.ids@.len() implies is_game_id(
            (#[trigger] next.ids@[i])@,
        ) by {
            if i < self.ids@.len() {
                assert(next.ids@[i] == self.ids@[i]);
            }
        }
    }

    /// Adds `g` under the unused identifier `id`.
    fn insert(&mut self, id: GameId, g: GameState)
        requires
            old(self).wf(),
            !old(self)@.games.contains_key(id@),
            is_game_id(id@),
        ensures
            final(self)@ == (GameIndexView {
                games: old(self)@.games.insert(id@, g@),
                default_config: old(self)@.default_config,
            }),
    {
        let mut taken = GameIndex { ids: Vec::new(), games: Vec::new(), default_config: self.default_config };
        std::mem::swap(&mut taken, self);
        let ghost before = taken;
        let GameIndex { mut ids, mut games, default_config } = taken;
        ids.push(id);
        games.push(g);
        let next = GameIndex { ids, games, default_config };
        proof {
            before.lemma_insert(id, g, next);
        }
        *self = next;
    }

    /// Creates a game with the default configuration; returns its identifier.
    pub fn create_game(&mut self, decks: Vec<Vec<Card>>) -> (game_id: GameId)
        ensures
            !old(self)@.games.contains_key(game_id@),
            is_game_id(game_id@),
            game_id@.len() == GAME_ID_LENGTH,
            final(self)@ == (GameIndexView {
                games: old(self)@.games.insert(
                    game_id@,
                    GameStateView::initial(old(self)@.default_config, boards_view(decks@)),
                ),
                default_config: old(self)@.default_config,
            }),
    {
        proof {
            use_type_invariant(&*self);
        }
        let game_id = self.generate_game_id();
        let g = GameState::new(self.default_config, decks);
        self.insert(game_id.clone(), g);
        game_id
    }

    /// Creates a game with the default configuration changed by
    /// `config_override`; returns its identifier.
    pub fn create_game_with_config_override(
        &mut self,
        decks: Vec<Vec<Card>>,
        config_override: GameConfigOverride,
    ) -> (game_id: GameId)
        ensures
            !old(self)@.games.contains_key(game_id@),
            is_game_id(game_id@),
            game_id@.len() == GAME_ID_LENGTH,
            final(self)@ == (GameIndexView {
                games: old(self)@.games.insert(
                    game_id@,
                    GameStateView::initial(
                        overridden(old(self)@.default_config, config_override),
                        boards_view(decks@),
                    ),
                ),
                default_config: old(self)@.default_config,
            }),
    {
        proof {
            use_type_invariant(&*self);
        }
        let game_id = self.generate_game_id();
        let mut config = self.default_config;
        config.apply_override(config_override);
        let g = GameState::new(config, decks);
        self.insert(game_id.clone(), g);
        game_id
    }

    /// The game under `game_id`, to read and change.
    pub fn get_game(&mut self, game_id: &GameId) -> (r: Option<&mut GameState>)
        ensures
            r is Some <==> old(self)@.games.contains_key(game_id@),
            r matches Some(g) ==> g@ == old(self)@.games[game_id@] && final(self)@ == (
            GameIndexView {
                games: old(self)@.games.insert(game_id@, final(g)@),
                default_config: old(self)@.default_config,
            }),
            r is None ==> final(self)@ == old(self)@,
    {
        proof {
            use_type_invariant(&*self);
        }
        match self.position(game_id) {
            Some(i) => {
                proof {
                    lemma_games_map_at(self.ids@, self.games@, i as int);
                    assert forall|g: GameState|
                        games_map(self.ids@, #[trigger] self.games@.update(i as int, g))
                            == games_map(self.ids@, self.games@).insert(game_id@, g@) by {
                        lemma_games_map_update(self.ids@, self.games@, i as int, g);
                    }
                }
                Some(&mut self.games[i])
            },
            None => None,
        }
    }

    /// The game under `game_id`, to read.
    pub fn find_game(&self, game_id: &GameId) -> (r: Option<&GameState>)
        ensures
            r is Some <==> self@.games.contains_key(game_id@),
            r matches Some(g) ==> g@ == self@.games[game_id@],
    {
        proof {
            use_type_invariant(&*self);
        }
        match self.position(game_id) {
            Some(i) => {
                proof {
                    lemma_games_map_at(self.ids@, self.games@, i as int);
                }
                Some(&self.games[i])
            },
            None => None,
        }
    }

    /// Removes the game under `game_id`, if there is one.
    pub fn remove_game(&mut self, game_id: &GameId)
        ensures
            final(self)@ == (GameIndexView {
                games: old(self)@.games.remove(game_id@),
                default_config: old(self)@.default_config,
            }),
    {
        proof {
            use_type_invariant(&*self);
        }
        match self.position(game_id) {
            Some(i) => {
                let mut taken = GameIndex { ids: Vec::new(), games: Vec::new(), default_config: self.default_config };
                std::mem::swap(&mut taken, self);
                let ghost before = taken;
                proof {
                    lemma_games_map_remove(before.ids@, before.games@, i as int);
                }
                let GameIndex { mut ids, mut games, default_config } = taken;
                ids.remove(i);
                games.remove(i);
                proof {
                    assert forall|j: int| 0 <= j < ids@.len() implies is_game_id(
                        (#[trigger] ids@[j])@,
                    ) by {
                        let j0 = if j < i { j } else { j + 1 };
                        assert(ids@[j] == before.ids@[j0]);
                    }
                }
                *self = GameIndex { ids, games, default_config };
            },
            None => {
                assert(self@.games.remove(game_id@) =~= self@.games);
            },
        }
    }
}

} // verus!
