use vstd::multiset::Multiset;
use vstd::prelude::*;

use super::{DuplicatePolicy, GameConfig};
use crate::deck::{same_card, Card};

verus! {

/// Whether the game goes on after a card was found.
#[derive(Debug, Copy, Clone, PartialEq, Eq, Structural)]
pub enum GameContinuation {
    Continue,
    Ffa,
    End,
}

/// The answer to a guess.
#[derive(Debug, Copy, Clone, PartialEq, Eq, Structural)]
pub enum CardGuessResult {
    Correct(GameContinuation),
    Incorrect,
}

/// The state of a game.
///
/// `boards` holds the current board of each player, as the list of their
/// cards; `current_card_playing` holds the position (player, card) of the card
/// being searched, if any.
#[derive(Debug, Clone)]
pub struct GameState {
    config: GameConfig,
    boards: Vec<Vec<Card>>,
    current_card_playing: Option<(usize, usize)>,
    game_continuation: GameContinuation,
}

/// The mathematical model of a [`GameState`].
pub struct GameStateView {
    pub config: GameConfig,
    pub boards: Seq<Seq<Card>>,
    pub current_card_playing: Option<(usize, usize)>,
    pub game_continuation: GameContinuation,
}

/// The boards as sequences of cards.
pub open spec fn boards_view(boards: Seq<Vec<Card>>) -> Seq<Seq<Card>> {
    boards.map_values(|b: Vec<Card>| b@)
}

/// Some board still holds a card.
pub open spec fn some_board_nonempty(boards: Seq<Seq<Card>>) -> bool {
    exists|j: int| 0 <= j < boards.len() && #[trigger] boards[j].len() > 0
}

/// Every board holds a card, and there is at least one board: a card can be
/// drawn at random.
pub open spec fn can_draw(boards: Seq<Seq<Card>>) -> bool {
    &&& boards.len() > 0
    &&& forall|j: int| 0 <= j < boards.len() ==> #[trigger] boards[j].len() > 0
}

/// Whether `guess` counts as `card` under `policy`.
pub open spec fn cards_match(policy: DuplicatePolicy, card: Card, guess: Card) -> bool {
    match policy {
        DuplicatePolicy::MatchAnime => card.anime@ == guess.anime@,
        DuplicatePolicy::MatchMusic => card.anime@ == guess.anime@ && card.number@ == guess.number@,
        DuplicatePolicy::MatchCard => same_card(card, guess),
    }
}

/// The number of cards on all boards.
pub open spec fn total_cards(boards: Seq<Seq<Card>>) -> nat
    decreases boards.len(),
{
    if boards.len() == 0 {
        0
    } else {
        total_cards(boards.drop_last()) + boards.last().len()
    }
}

/// The boards after the card at `index_source` of board `player_source` was
/// moved to the end of board `player_dest`.
pub open spec fn moved_card(
    boards: Seq<Seq<Card>>,
    player_source: int,
    index_source: int,
    player_dest: int,
) -> Seq<Seq<Card>> {
    let card = boards[player_source][index_source];
    let taken = boards.update(player_source, boards[player_source].remove(index_source));
    taken.update(player_dest, taken[player_dest].push(card))
}

/// All the cards on the boards, counted with their repetitions.
pub open spec fn card_multiset(boards: Seq<Seq<Card>>) -> Multiset<Card>
    decreases boards.len(),
{
    if boards.len() == 0 {
        Multiset::empty()
    } else {
        card_multiset(boards.drop_last()).add(boards.last().to_multiset())
    }
}

impl GameStateView {
    /// The state of a game that was just created.
    pub open spec fn initial(config: GameConfig, boards: Seq<Seq<Card>>) -> GameStateView {
        GameStateView {
            config,
            boards,
            current_card_playing: None,
            game_continuation: GameContinuation::Continue,
        }
    }

    pub open spec fn has_ended(self) -> bool {
        self.game_continuation == GameContinuation::End
    }

    /// The position of the card being searched points at a card.
    pub open spec fn current_in_range(self) -> bool {
        match self.current_card_playing {
            Some((p, c)) => p < self.boards.len() && c < self.boards[p as int].len(),
            None => false,
        }
    }

    /// The card being searched, if any.
    pub open spec fn current_card(self) -> Option<Card> {
        if self.current_in_range() {
            let (p, c) = self.current_card_playing->0;
            Some(self.boards[p as int][c as int])
        } else {
            None
        }
    }

    /// Drawing a card is allowed: none is being searched and the game goes on.
    pub open spec fn may_play(self) -> bool {
        self.current_card_playing is None && !self.has_ended()
    }

    /// The state once the card at (`p`, `c`) is the one being searched.
    pub open spec fn with_card_playing(self, p: usize, c: usize) -> GameStateView {
        GameStateView { current_card_playing: Some((p, c)), ..self }
    }

    /// The state after the card being searched was found, and how the game goes on.
    ///
    /// The card leaves its board; a board that is emptied leaves the game. The
    /// game ends when a board is emptied, unless free for all is on and some
    /// other board still holds cards; in that last case the stored
    /// continuation is left as it was.
    pub open spec fn after_correct_guess(self) -> (GameStateView, GameContinuation) {
        let (p, c) = self.current_card_playing->0;
        let board = self.boards[p as int].remove(c as int);
        let boards = self.boards.update(p as int, board);
        if board.len() == 0 {
            let rest = boards.remove(p as int);
            if self.config.has_ffa && some_board_nonempty(rest) {
                (
                    GameStateView { boards: rest, current_card_playing: None, ..self },
                    GameContinuation::Ffa,
                )
            } else {
                (
                    GameStateView {
                        boards: rest,
                        current_card_playing: None,
                        game_continuation: GameContinuation::End,
                        ..self
                    },
                    GameContinuation::End,
                )
            }
        } else {
            (
                GameStateView {
                    boards,
                    current_card_playing: None,
                    game_continuation: GameContinuation::Continue,
                    ..self
                },
                GameContinuation::Continue,
            )
        }
    }

    /// The state after `guess` was made while a card is searched, and the answer.
    pub open spec fn after_guess(self, guess: Card) -> (GameStateView, CardGuessResult) {
        if cards_match(self.config.duplicate_policy, self.current_card()->0, guess) {
            let (s, k) = self.after_correct_guess();
            (s, CardGuessResult::Correct(k))
        } else {
            (self, CardGuessResult::Incorrect)
        }
    }
}

impl View for GameState {
    type V = GameStateView;

    closed spec fn view(&self) -> GameStateView {
        GameStateView {
            config: self.config,
            boards: boards_view(self.boards@),
            current_card_playing: self.current_card_playing,
            game_continuation: self.game_continuation,
        }
    }
}

impl GameState {
    pub fn new(config: GameConfig, decks: Vec<Vec<Card>>) -> (r: Self)
        ensures
            r@ == GameStateView::initial(config, boards_view(decks@)),
    {
        GameState {
            config,
            boards: decks,
            current_card_playing: None,
            game_continuation: GameContinuation::Continue,
        }
    }

    pub fn get_config(&self) -> (r: &GameConfig)
        ensures
            *r == self@.config,
    {
        &self.config
    }

    pub fn get_boards(&self) -> (r: &Vec<Vec<Card>>)
        ensures
            boards_view(r@) == self@.boards,
    {
        &self.boards
    }

    /// Gives the boards to change; the rest of the state stays as it is.
    pub fn get_boards_mut(&mut self) -> (r: &mut Vec<Vec<Card>>)
        ensures
            boards_view(r@) == old(self)@.boards,
            final(self)@ == (GameStateView { boards: boards_view(final(r)@), ..old(self)@ }),
    {
        &mut self.boards
    }

    pub fn get_player_board(&self, player_index: usize) -> (r: Option<&Vec<Card>>)
        ensures
            r is Some <==> player_index < self@.boards.len(),
            r matches Some(b) ==> b@ == self@.boards[player_index as int],
    {
        if player_index < self.boards.len() {
            Some(&self.boards[player_index])
        } else {
            None
        }
    }

    /// The card being searched; none where the stored position points at no card.
    pub fn get_current_card_playing(&self) -> (r: Option<&Card>)
        ensures
            r is Some <==> self@.current_card() is Some,
            r matches Some(c) ==> *c == self@.current_card()->0,
    {
        let (player_index, card_index) = self.current_card_playing?;
        if player_index < self.boards.len() && card_index < self.boards[player_index].len() {
            Some(&self.boards[player_index][card_index])
        } else {
            None
        }
    }

    pub fn get_game_continuation(&self) -> (r: &GameContinuation)
        ensures
            *r == self@.game_continuation,
    {
        &self.game_continuation
    }

    pub fn has_game_ended(&self) -> (r: bool)
        ensures
            r == self@.has_ended(),
    {
        match self.game_continuation {
            GameContinuation::End => true,
            _ => false,
        }
    }

    /// Whether a card can be drawn without failing: either `play_card`
    /// refuses, or every board holds a card.
    #[verifier::loop_isolation(false)]
    pub fn can_play_card(&self) -> (r: bool)
        ensures
            r == (!self@.may_play() || can_draw(self@.boards)),
    {
        if self.current_card_playing.is_some() || self.has_game_ended() {
            return true;
        }
        if self.boards.len() == 0 {
            return false;
        }
        let mut j: usize = 0;
        while j < self.boards.len()
            invariant
                j <= self.boards@.len(),
                forall|k: int| 0 <= k < j ==> #[trigger] self@.boards[k].len() > 0,
            decreases self.boards@.len() - j,
        {
            if self.boards[j].len() == 0 {
                assert(self@.boards[j as int].len() == 0);
                return false;
            }
            j = j + 1;
        }
        true
    }

    /// Whether a position of the card being searched is stored, pointing at a
    /// card or not.
    pub fn has_card_position(&self) -> (r: bool)
        ensures
            r == self@.current_card_playing is Some,
    {
        self.current_card_playing.is_some()
    }

    /// Chooses a card at random to become the card being searched.
    pub fn play_card(&mut self) -> (r: Result<(), &'static str>)
        requires
            old(self)@.may_play() ==> can_draw(old(self)@.boards),
        ensures
            r is Ok <==> old(self)@.may_play(),
            r matches Err(e) ==> *final(self) == *old(self) && (if old(self)@.current_card_playing is Some {
                e@ == "Card already being played"@
            } else {
                e@ == "Game already ended"@
            }),
            r is Ok ==> final(self)@.current_in_range() && exists|p: usize, c: usize|
                final(self)@ == old(self)@.with_card_playing(p, c),
    {
        if self.current_card_playing.is_some() {
            Err("Card already being played")
        } else if self.has_game_ended() {
            Err("Game already ended")
        } else {
            assert(self@.boards[0].len() > 0);
            let player_index = crate::rng::random_index(self.boards.len());
            assert(self@.boards[player_index as int].len() > 0);
            let card_index = crate::rng::random_index(self.boards[player_index].len());
            self.play_card_at(player_index, card_index)
        }
    }

    /// Makes the card at (`player_index`, `card_index`) the card being
    /// searched: what [`GameState::play_card`] does with the position it drew.
    pub fn play_card_at(&mut self, player_index: usize, card_index: usize) -> (r: Result<
        (),
        &'static str,
    >)
        requires
            old(self)@.may_play() ==> player_index < old(self)@.boards.len() && card_index < old(
                self,
            )@.boards[player_index as int].len(),
        ensures
            r is Ok <==> old(self)@.may_play(),
            r matches Err(e) ==> *final(self) == *old(self) && (if old(self)@.current_card_playing is Some {
                e@ == "Card already being played"@
            } else {
                e@ == "Game already ended"@
            }),
            r is Ok ==> final(self)@ == old(self)@.with_card_playing(player_index, card_index),
    {
        if self.current_card_playing.is_some() {
            Err("Card already being played")
        } else if self.has_game_ended() {
            Err("Game already ended")
        } else {
            self.current_card_playing = Some((player_index, card_index));
            Ok(())
        }
    }

    /// Checks the guess against the card being searched, by the game's
    /// duplicate policy. A correct guess takes the card off its board.
    pub fn guess_card(&mut self, card_guess: Card) -> (r: Result<CardGuessResult, &'static str>)
        requires
            old(self)@.current_card_playing is Some ==> old(self)@.current_in_range(),
        ensures
            r is Ok <==> old(self)@.current_card_playing is Some,
            r matches Err(e) ==> *final(self) == *old(self) && e@ == "No card being played"@,
            r matches Ok(g) ==> (final(self)@, g) == old(self)@.after_guess(card_guess),
    {
        if self.current_card_playing.is_none() {
            Err("No card being played")
        } else {
            let card = self.get_current_card_playing().unwrap();
            let result = match self.config.duplicate_policy {
                DuplicatePolicy::MatchAnime => card.anime == card_guess.anime,
                DuplicatePolicy::MatchMusic => {
                    card.anime == card_guess.anime && card.number == card_guess.number
                },
                DuplicatePolicy::MatchCard => card.same_as(&card_guess),
            };
            if result {
                Ok(CardGuessResult::Correct(self.guess_correctly()))
            } else {
                Ok(CardGuessResult::Incorrect)
            }
        }
    }

    #[verifier::loop_isolation(false)]
    fn guess_correctly(&mut self) -> (k: GameContinuation)
        requires
            old(self)@.current_in_range(),
        ensures
            (final(self)@, k) == old(self)@.after_correct_guess(),
    {
        let ghost s = self@;
        let (player_index, card_index) = self.current_card_playing.unwrap();
        self.boards[player_index].remove(card_index);
        self.current_card_playing = None;
        assert(boards_view(self.boards@) =~= s.boards.update(
            player_index as int,
            s.boards[player_index as int].remove(card_index as int),
        ));
        if self.boards[player_index].is_empty() {
            self.boards.remove(player_index);
            let ghost rest = boards_view(self.boards@);
            assert(rest =~= s.boards.update(
                player_index as int,
                s.boards[player_index as int].remove(card_index as int),
            ).remove(player_index as int));
            if self.config.has_ffa {
                let mut j: usize = 0;
                while j < self.boards.len()
                    invariant
                        j <= self.boards@.len(),
                        rest == boards_view(self.boards@),
                        forall|k: int| 0 <= k < j ==> #[trigger] rest[k].len() == 0,
                    decreases self.boards@.len() - j,
                {
                    if !self.boards[j].is_empty() {
                        assert(rest[j as int].len() > 0);
                        return GameContinuation::Ffa;
                    }
                    j = j + 1;
                }
            }
            self.game_continuation = GameContinuation::End;
        } else {
            self.game_continuation = GameContinuation::Continue;
        }
        self.game_continuation
    }
}

} // verus!

verus! {

proof fn lemma_total_cards_update(boards: Seq<Seq<Card>>, i: int, board: Seq<Card>)
    requires
        0 <= i < boards.len(),
    ensures
        total_cards(boards.update(i, board)) + boards[i].len() == total_cards(boards) + board.len(),
    decreases boards.len(),
{
    let u = boards.update(i, board);
    if i == boards.len() - 1 {
        assert(u.drop_last() =~= boards.drop_last());
    } else {
        lemma_total_cards_update(boards.drop_last(), i, board);
        assert(u.drop_last() =~= boards.drop_last().update(i, board));
    }
}

proof fn lemma_total_cards_remove(boards: Seq<Seq<Card>>, i: int)
    requires
        0 <= i < boards.len(),
    ensures
        total_cards(boards.remove(i)) + boards[i].len() == total_cards(boards),
    decreases boards.len(),
{
    let r = boards.remove(i);
    if i == boards.len() - 1 {
        assert(r =~= boards.drop_last());
    } else {
        lemma_total_cards_remove(boards.drop_last(), i);
        assert(r.drop_last() =~= boards.drop_last().remove(i));
        assert(r.last() == boards.last());
    }
}

proof fn lemma_card_multiset_update(boards: Seq<Seq<Card>>, i: int, board: Seq<Card>)
    requires
        0 <= i < boards.len(),
    ensures
        card_multiset(boards.update(i, board)).add(boards[i].to_multiset()) == card_multiset(
            boards,
        ).add(board.to_multiset()),
    decreases boards.len(),
{
    broadcast use vstd::multiset::group_multiset_axioms;

    let u = boards.update(i, board);
    if i == boards.len() - 1 {
        assert(u.drop_last() =~= boards.drop_last());
        assert(card_multiset(u).add(boards[i].to_multiset()) =~= card_multiset(boards).add(
            board.to_multiset(),
        ));
    } else {
        lemma_card_multiset_update(boards.drop_last(), i, board);
        assert(u.drop_last() =~= boards.drop_last().update(i, board));
        assert(u.last() == boards.last());
        assert(boards.drop_last()[i] == boards[i]);
        let bdl = boards.drop_last();
        let ub = bdl.update(i, board);
        assert(card_multiset(u) == card_multiset(ub).add(boards.last().to_multiset()));
        assert(card_multiset(boards) == card_multiset(bdl).add(boards.last().to_multiset()));
        assert forall|x: Card| #[trigger]
            card_multiset(u).add(boards[i].to_multiset()).count(x) == card_multiset(boards).add(
                board.to_multiset(),
            ).count(x) by {
            assert(card_multiset(ub).add(bdl[i].to_multiset()).count(x) == card_multiset(bdl).add(
                board.to_multiset(),
            ).count(x));
        }
        assert(card_multiset(u).add(boards[i].to_multiset()) =~= card_multiset(boards).add(
            board.to_multiset(),
        ));
    }
}

proof fn lemma_card_multiset_remove(boards: Seq<Seq<Card>>, i: int)
    requires
        0 <= i < boards.len(),
    ensures
        card_multiset(boards.remove(i)).add(boards[i].to_multiset()) == card_multiset(boards),
    decreases boards.len(),
{
    broadcast use vstd::multiset::group_multiset_axioms;

    let r = boards.remove(i);
    if i == boards.len() - 1 {
        assert(r =~= boards.drop_last());
    } else {
        lemma_card_multiset_remove(boards.drop_last(), i);
        assert(r.drop_last() =~= boards.drop_last().remove(i));
        assert(r.last() == boards.last());
        assert(card_multiset(r).add(boards[i].to_multiset()) =~= card_multiset(boards));
    }
}

/// A correct guess takes the searched card, and only it, off the boards.
pub proof fn law_correct_guess_removes_the_searched_card(s: GameStateView)
    requires
        s.current_in_range(),
    ensures
        card_multiset(s.after_correct_guess().0.boards) == card_multiset(s.boards).remove(
            s.current_card()->0,
        ),
        card_multiset(s.boards).count(s.current_card()->0) > 0,
{
    broadcast use vstd::multiset::group_multiset_axioms;
    broadcast use vstd::seq_lib::to_multiset_remove;

    let (p, c) = s.current_card_playing->0;
    let card = s.boards[p as int][c as int];
    let old_board = s.boards[p as int];
    let board = old_board.remove(c as int);
    let boards = s.boards.update(p as int, board);
    lemma_card_multiset_update(s.boards, p as int, board);
    assert(board.to_multiset() == old_board.to_multiset().remove(card));
    old_board.to_multiset_ensures();
    assert(old_board.contains(card)) by {
        assert(old_board[c as int] == card);
    }
    assert(old_board.to_multiset().count(card) > 0);
    let rest_of_boards = card_multiset(boards);
    assert(card_multiset(s.boards).count(card) > 0) by {
        assert(rest_of_boards.add(old_board.to_multiset()).count(card) == card_multiset(
            s.boards,
        ).add(board.to_multiset()).count(card));
    }
    assert forall|x: Card| #[trigger]
        rest_of_boards.count(x) == card_multiset(s.boards).remove(card).count(x) by {
        assert(rest_of_boards.add(old_board.to_multiset()).count(x) == card_multiset(s.boards).add(
            board.to_multiset(),
        ).count(x));
        assert(board.to_multiset().count(x) == old_board.to_multiset().remove(card).count(x));
    }
    assert(rest_of_boards =~= card_multiset(s.boards).remove(card));
    if board.len() == 0 {
        lemma_card_multiset_remove(boards, p as int);
        assert(board.to_multiset() =~= Multiset::empty()) by {
            board.to_multiset_ensures();
        }
        assert(card_multiset(boards.remove(p as int)) =~= rest_of_boards);
    }
}

/// Moving a card from a board to another keeps the cards on the boards.
pub proof fn law_move_keeps_the_cards(
    boards: Seq<Seq<Card>>,
    player_source: int,
    index_source: int,
    player_dest: int,
)
    requires
        0 <= player_source < boards.len(),
        0 <= player_dest < boards.len(),
        0 <= index_source < boards[player_source].len(),
    ensures
        card_multiset(moved_card(boards, player_source, index_source, player_dest))
            == card_multiset(boards),
{
    broadcast use vstd::multiset::group_multiset_axioms;
    broadcast use vstd::seq_lib::to_multiset_remove;
    broadcast use vstd::seq_lib::to_multiset_build;

    let card = boards[player_source][index_source];
    let src = boards[player_source];
    let taken = boards.update(player_source, src.remove(index_source));
    let dst = taken[player_dest];
    lemma_card_multiset_update(boards, player_source, src.remove(index_source));
    lemma_card_multiset_update(taken, player_dest, dst.push(card));
    assert(src.remove(index_source).to_multiset() == src.to_multiset().remove(card));
    assert(dst.push(card).to_multiset() == dst.to_multiset().insert(card));
    src.to_multiset_ensures();
    assert(src.contains(card)) by {
        assert(src[index_source] == card);
    }
    let moved = moved_card(boards, player_source, index_source, player_dest);
    assert forall|x: Card| #[trigger] card_multiset(moved).count(x) == card_multiset(boards).count(
        x,
    ) by {
        assert(card_multiset(taken).add(src.to_multiset()).count(x) == card_multiset(boards).add(
            src.remove(index_source).to_multiset(),
        ).count(x));
        assert(card_multiset(moved).add(taken[player_dest].to_multiset()).count(x) == card_multiset(
            taken,
        ).add(dst.push(card).to_multiset()).count(x));
        assert(src.remove(index_source).to_multiset().count(x) == src.to_multiset().remove(
            card,
        ).count(x));
        assert(dst.push(card).to_multiset().count(x) == dst.to_multiset().insert(card).count(x));
    }
    assert(card_multiset(moved) =~= card_multiset(boards));
}

/// A correct guess takes exactly one card off the boards.
pub proof fn law_correct_guess_removes_one_card(s: GameStateView)
    requires
        s.current_in_range(),
    ensures
        total_cards(s.after_correct_guess().0.boards) + 1 == total_cards(s.boards),
{
    let (p, c) = s.current_card_playing->0;
    let board = s.boards[p as int].remove(c as int);
    let boards = s.boards.update(p as int, board);
    lemma_total_cards_update(s.boards, p as int, board);
    if board.len() == 0 {
        lemma_total_cards_remove(boards, p as int);
    }
}

/// A wrong guess leaves the game as it was, the searched card included.
pub proof fn law_incorrect_guess_changes_nothing(s: GameStateView, guess: Card)
    requires
        s.current_in_range(),
        !cards_match(s.config.duplicate_policy, s.current_card()->0, guess),
    ensures
        s.after_guess(guess) == (s, CardGuessResult::Incorrect),
{
}

/// After a correct guess no card is searched any more, the configuration is
/// kept, and the continuation answered is the one the game is in, but for a
/// free-for-all continuation, which leaves the stored one as it was.
pub proof fn law_correct_guess_outcome(s: GameStateView, guess: Card)
    requires
        s.current_in_range(),
        cards_match(s.config.duplicate_policy, s.current_card()->0, guess),
    ensures
        ({
            let (t, r) = s.after_guess(guess);
            &&& r == CardGuessResult::Correct(s.after_correct_guess().1)
            &&& t.current_card_playing is None
            &&& t.config == s.config
            &&& s.after_correct_guess().1 != GameContinuation::Ffa ==> t.game_continuation
                == s.after_correct_guess().1
            &&& s.after_correct_guess().1 == GameContinuation::Ffa ==> t.game_continuation
                == s.game_continuation
        }),
{
}

/// The game ends exactly when a correct guess empties a board and either free
/// for all is off or every other board is empty too.
pub proof fn law_when_the_game_ends(s: GameStateView)
    requires
        s.current_in_range(),
    ensures
        ({
            let (p, c) = s.current_card_playing->0;
            let emptied = s.boards[p as int].len() == 1;
            let rest = s.boards.remove(p as int);
            &&& (s.after_correct_guess().1 == GameContinuation::End) == (emptied && (
            !s.config.has_ffa || !some_board_nonempty(rest)))
            &&& (s.after_correct_guess().1 == GameContinuation::Continue) == !emptied
        }),
{
    let (p, c) = s.current_card_playing->0;
    let board = s.boards[p as int].remove(c as int);
    let boards = s.boards.update(p as int, board);
    if board.len() == 0 {
        assert(boards.remove(p as int) =~= s.boards.remove(p as int));
    }
}

/// Once a guess has ended the game, no card can be drawn any more, and with no
/// card searched no guess is taken either.
pub proof fn law_ended_game_is_over(s: GameStateView)
    requires
        s.current_in_range(),
        s.after_correct_guess().1 == GameContinuation::End,
    ensures
        s.after_correct_guess().0.has_ended(),
        !s.after_correct_guess().0.may_play(),
        s.after_correct_guess().0.current_card_playing is None,
{
}

/// Moving a card from a board to another keeps the number of cards.
pub proof fn law_move_keeps_card_count(
    boards: Seq<Seq<Card>>,
    player_source: int,
    index_source: int,
    player_dest: int,
)
    requires
        0 <= player_source < boards.len(),
        0 <= player_dest < boards.len(),
        0 <= index_source < boards[player_source].len(),
    ensures
        total_cards(moved_card(boards, player_source, index_source, player_dest)) == total_cards(
            boards,
        ),
{
    let card = boards[player_source][index_source];
    let taken = boards.update(player_source, boards[player_source].remove(index_source));
    lemma_total_cards_update(boards, player_source, boards[player_source].remove(index_source));
    lemma_total_cards_update(taken, player_dest, taken[player_dest].push(card));
}

/// Drawing a card touches neither the boards, nor the configuration, nor the
/// continuation, and makes the drawn card the one searched.
pub proof fn law_play_keeps_boards(s: GameStateView, p: usize, c: usize)
    requires
        p < s.boards.len(),
        c < s.boards[p as int].len(),
    ensures
        s.with_card_playing(p, c).boards == s.boards,
        s.with_card_playing(p, c).config == s.config,
        s.with_card_playing(p, c).game_continuation == s.game_continuation,
        s.with_card_playing(p, c).current_card() == Some(s.boards[p as int][c as int]),
{
}

} // verus!

verus! {

/// Under each duplicate policy a guess is correct exactly when it agrees with
/// the searched card on what the policy compares: the anime; the anime and the
/// music's number; or every field of the card, its id being only one of them.
pub proof fn law_guess_is_correct_when_it_matches(s: GameStateView, guess: Card)
    requires
        s.current_in_range(),
    ensures
        ({
            let (p, c) = s.current_card_playing->0;
            let card = s.boards[p as int][c as int];
            let correct = s.after_guess(guess).1 is Correct;
            &&& s.config.duplicate_policy == DuplicatePolicy::MatchAnime ==> (correct
                <==> card.anime@ == guess.anime@)
            &&& s.config.duplicate_policy == DuplicatePolicy::MatchMusic ==> (correct <==> (
            card.anime@ == guess.anime@ && card.number@ == guess.number@))
            &&& s.config.duplicate_policy == DuplicatePolicy::MatchCard ==> (correct <==> (
            card.id == guess.id && card.anime@ == guess.anime@ && card.number@ == guess.number@
                && card.title@ == guess.title@ && card.authors@ == guess.authors@ && card.image@
                == guess.image@ && card.audio@ == guess.audio@ && card.anilist_id
                == guess.anilist_id))
        }),
{
}

/// Moving a card takes it out of its board, the cards after it moving up one
/// place, and puts it at the end of the destination board; every other card
/// keeps its place, and boards of other players are untouched.
pub proof fn law_move_keeps_order(
    boards: Seq<Seq<Card>>,
    player_source: int,
    index_source: int,
    player_dest: int,
)
    requires
        0 <= player_source < boards.len(),
        0 <= player_dest < boards.len(),
        0 <= index_source < boards[player_source].len(),
    ensures
        ({
            let m = moved_card(boards, player_source, index_source, player_dest);
            let src = boards[player_source];
            let dst = boards[player_dest];
            let card = src[index_source];
            &&& m.len() == boards.len()
            &&& forall|q: int|
                0 <= q < boards.len() && q != player_source && q != player_dest ==> #[trigger] m[q]
                    == boards[q]
            &&& player_source != player_dest ==> {
                &&& m[player_source].len() + 1 == src.len()
                &&& forall|j: int| 0 <= j < index_source ==> #[trigger] m[player_source][j] == src[j]
                &&& forall|j: int|
                    index_source <= j < m[player_source].len() ==> #[trigger] m[player_source][j]
                        == src[j + 1]
                &&& m[player_dest].len() == dst.len() + 1
                &&& forall|j: int| 0 <= j < dst.len() ==> #[trigger] m[player_dest][j] == dst[j]
                &&& m[player_dest][dst.len() as int] == card
            }
            &&& player_source == player_dest ==> {
                &&& m[player_source].len() == src.len()
                &&& forall|j: int| 0 <= j < index_source ==> #[trigger] m[player_source][j] == src[j]
                &&& forall|j: int|
                    index_source <= j < src.len() - 1 ==> #[trigger] m[player_source][j] == src[j
                        + 1]
                &&& m[player_source][src.len() - 1] == card
            }
        }),
{
}

/// A correct guess takes the searched card out of its board, the cards after
/// it moving up one place; when that empties the board, the board leaves the
/// game and the boards after it move up one place. Every other board is kept.
pub proof fn law_correct_guess_keeps_order(s: GameStateView)
    requires
        s.current_in_range(),
    ensures
        ({
            let (p, c) = s.current_card_playing->0;
            let b = s.boards;
            let t = s.after_correct_guess().0.boards;
            &&& b[p as int].len() > 1 ==> {
                &&& t.len() == b.len()
                &&& t[p as int].len() + 1 == b[p as int].len()
                &&& forall|j: int| 0 <= j < c ==> #[trigger] t[p as int][j] == b[p as int][j]
                &&& forall|j: int|
                    c <= j < t[p as int].len() ==> #[trigger] t[p as int][j] == b[p as int][j + 1]
                &&& forall|q: int| 0 <= q < b.len() && q != p ==> #[trigger] t[q] == b[q]
            }
            &&& b[p as int].len() == 1 ==> {
                &&& t.len() + 1 == b.len()
                &&& forall|q: int| 0 <= q < p ==> #[trigger] t[q] == b[q]
                &&& forall|q: int| p <= q < t.len() ==> #[trigger] t[q] == b[q + 1]
            }
        }),
{
}

} // verus!
