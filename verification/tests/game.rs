use karuta::game::sample::create_sample_cards;
use karuta::state;
use karuta::state::CardGuessResult;
use karuta::{DuplicatePolicy, GameConfig, GameIndex};

#[test]
fn create_game() {
    let cards = create_sample_cards();

    let mut game_index = GameIndex::new(GameConfig {
        has_ffa: false,
        duplicate_policy: DuplicatePolicy::MatchMusic,
    });

    let game_id = game_index.create_game(vec![vec![cards[0].clone()]]);

    let game = game_index.get_game(&game_id).unwrap();
    assert_eq!(game.get_boards().len(), 1);
}

#[test]
fn create_simple_game_and_play() {
    let cards = create_sample_cards();

    let mut game_index = GameIndex::new(GameConfig {
        has_ffa: false,
        duplicate_policy: DuplicatePolicy::MatchMusic,
    });

    let game_id = game_index.create_game(vec![vec![cards[0].clone()], vec![cards[0].clone()]]);

    let game = game_index.get_game(&game_id).unwrap();
    game.play_card().unwrap();

    assert_eq!(game.get_current_card_playing().unwrap(), &cards[0]);

    assert_eq!(
        game.guess_card(cards[0].clone()).unwrap(),
        CardGuessResult::Correct(state::GameContinuation::End),
    );

    assert!(game.has_game_ended());
}

#[test]
fn create_game_with_ffa_and_play() {
    let cards = create_sample_cards();

    let mut game_index = GameIndex::new(GameConfig {
        has_ffa: true,
        duplicate_policy: DuplicatePolicy::MatchMusic,
    });

    let game_id = game_index.create_game(vec![vec![cards[0].clone()], vec![cards[0].clone()]]);

    let game = game_index.get_game(&game_id).unwrap();
    game.play_card().unwrap();

    assert_eq!(game.get_current_card_playing().unwrap(), &cards[0]);

    assert_eq!(
        game.guess_card(cards[0].clone()).unwrap(),
        CardGuessResult::Correct(state::GameContinuation::Ffa),
    );

    game.play_card().unwrap();

    assert_eq!(
        game.guess_card(cards[0].clone()).unwrap(),
        CardGuessResult::Correct(state::GameContinuation::End),
    );

    assert!(game.has_game_ended());
}

#[test]
fn play_game_with_match_anime() {
    let cards = create_sample_cards();

    let mut game_index = GameIndex::new(GameConfig {
        has_ffa: false,
        duplicate_policy: DuplicatePolicy::MatchAnime,
    });

    let game_id = game_index.create_game(vec![vec![cards[0].clone()]]);

    let game = game_index.get_game(&game_id).unwrap();
    game.play_card().unwrap();
    assert_eq!(
        game.guess_card(cards[1].clone()).unwrap(),
        CardGuessResult::Incorrect,
    );
    assert_eq!(
        game.guess_card(cards[2].clone()).unwrap(),
        CardGuessResult::Correct(state::GameContinuation::End),
    );
}

#[test]
fn play_game_with_match_music() {
    let cards = create_sample_cards();

    let mut game_index = GameIndex::new(GameConfig {
        has_ffa: false,
        duplicate_policy: DuplicatePolicy::MatchMusic,
    });

    let game_id = game_index.create_game(vec![vec![cards[0].clone()]]);

    let game = game_index.get_game(&game_id).unwrap();
    game.play_card().unwrap();
    assert_eq!(
        game.guess_card(cards[1].clone()).unwrap(),
        CardGuessResult::Incorrect,
    );
    assert_eq!(
        game.guess_card(cards[2].clone()).unwrap(),
        CardGuessResult::Incorrect,
    );
    assert_eq!(
        game.guess_card(cards[3].clone()).unwrap(),
        CardGuessResult::Correct(state::GameContinuation::End),
    );
}

#[test]
fn play_game_with_match_card() {
    let cards = create_sample_cards();

    let mut game_index = GameIndex::new(GameConfig {
        has_ffa: false,
        duplicate_policy: DuplicatePolicy::MatchCard,
    });

    let game_id = game_index.create_game(vec![vec![cards[0].clone()]]);

    let game = game_index.get_game(&game_id).unwrap();
    game.play_card().unwrap();
    assert_eq!(
        game.guess_card(cards[1].clone()).unwrap(),
        CardGuessResult::Incorrect,
    );
    assert_eq!(
        game.guess_card(cards[2].clone()).unwrap(),
        CardGuessResult::Incorrect,
    );
    assert_eq!(
        game.guess_card(cards[3].clone()).unwrap(),
        CardGuessResult::Incorrect,
    );
    assert_eq!(
        game.guess_card(cards[0].clone()).unwrap(),
        CardGuessResult::Correct(state::GameContinuation::End),
    );
}
