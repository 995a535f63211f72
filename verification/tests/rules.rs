use karuta::categories::{get_category_icon, Category, CategoryJSON};
use karuta::config::GlobalConfig;
use karuta::deck::{deck_metadata, deck_names, get_cover, get_sound, get_visual, DeckSource};
use karuta::game::sample::create_sample_cards;
use karuta::game::state::{CardGuessResult, GameContinuation, GameState};
use karuta::game::{
    create_1v1_game, default_game_config, get_boards, get_game_config, get_player_board,
    get_state, guess_card, move_card, play_card, play_card_would_fail, Message, Reply, Status,
};
use karuta::git_repos::{clone_wait_step, dedup_sources, has_repo_path, CloneWait, GitSource};
use karuta::text::encode_spaces;
use karuta::theme::{get_theme, theme_names};
use karuta::{Card, Deck, DuplicatePolicy, GameConfig, GameConfigOverride, GameData, GameIndex};

fn github(user: &str, repo: &str) -> GitSource {
    GitSource::GitHub {
        user: user.to_string(),
        repo: repo.to_string(),
        default_branch: "main".to_string(),
    }
}

fn sample_decks() -> Vec<(DeckSource, Deck)> {
    let cards = create_sample_cards();
    vec![
        (
            github("alice", "Deck One"),
            Deck {
                name: "one".to_string(),
                category: "Anime".to_string(),
                type_: "Openings".to_string(),
                author: "alice".to_string(),
                cards: vec![cards[0].clone(), cards[1].clone()],
            },
        ),
        (
            GitSource::GitLab {
                user: "bob".to_string(),
                repo: "two".to_string(),
                default_branch: "master".to_string(),
            },
            Deck {
                name: "two".to_string(),
                category: "Anime".to_string(),
                type_: "Endings".to_string(),
                author: "bob".to_string(),
                cards: vec![cards[2].clone(), cards[3].clone()],
            },
        ),
    ]
}

fn config(has_ffa: bool, duplicate_policy: DuplicatePolicy) -> GameConfig {
    GameConfig { has_ffa, duplicate_policy }
}

#[test]
fn file_urls_of_both_forges() {
    let gh = github("alice", "Deck One");
    assert_eq!(
        gh.get_file_url("deck.json"),
        "https://raw.githubusercontent.com/alice/Deck%20One/main/deck.json"
    );
    let gl = GitSource::GitLab {
        user: "bob".to_string(),
        repo: "two".to_string(),
        default_branch: "master".to_string(),
    };
    assert_eq!(gl.get_file_url("cover.png"), "https://gitlab.com/bob/two/raw/master/cover.png");
    assert_eq!(
        gl.get_visual_url("a b.png"),
        "https://gitlab.com/bob/two/raw/master/Visuals/a%20b.png"
    );
    assert_eq!(gl.get_sound_url("s.mp3"), "https://gitlab.com/bob/two/raw/master/Sounds/s.mp3");
    assert_eq!(gl.get_deck_json_url(), "https://gitlab.com/bob/two/raw/master/deck.json");
    assert_eq!(gl.get_deck_cover_url(), "https://gitlab.com/bob/two/raw/master/cover.png");
}

#[test]
fn encoded_text_has_no_space() {
    let e = encode_spaces(" a  b ");
    assert_eq!(e, "%20a%20%20b%20");
    assert!(!e.contains(' '));
    assert_eq!(encode_spaces("plain"), "plain");
}

#[test]
fn parse_url_of_forges() {
    let gh = GitSource::parse_url("https://github.com/alice/decks.git", "main".to_string());
    assert_eq!(gh, Some(github("alice", "decks")));
    let gl = GitSource::parse_url("https://gitlab.com/bob/index.git.git", "dev".to_string());
    assert_eq!(
        gl,
        Some(GitSource::GitLab {
            user: "bob".to_string(),
            repo: "index".to_string(),
            default_branch: "dev".to_string(),
        })
    );
    assert_eq!(GitSource::parse_url("https://example.com/a/b", "main".to_string()), None);
    assert_eq!(
        GitSource::parse_url("https://git.sr.ht/~user/deck", "trunk".to_string()),
        Some(GitSource::Sourcehut {
            user: "user".to_string(),
            repo: "deck".to_string(),
            default_branch: "trunk".to_string(),
        })
    );
    assert!(has_repo_path("https://github.com/alice/decks"));
    assert!(!has_repo_path("https://github.com/alice"));
}

#[test]
fn clone_names() {
    let gh = github("alice", "decks");
    assert_eq!(gh.clone_url(), "https://github.com/alice/decks.git");
    assert_eq!(gh.local_dir_name(), "alice_decks");
    let gl = GitSource::GitLab {
        user: "bob".to_string(),
        repo: "two".to_string(),
        default_branch: "master".to_string(),
    };
    assert_eq!(gl.clone_url(), "https://gitlab.com/bob/two.git");
    let sh = GitSource::Sourcehut {
        user: "carol".to_string(),
        repo: "three".to_string(),
        default_branch: "trunk".to_string(),
    };
    assert_eq!(sh.clone_url(), "https://git.sr.ht/~carol/three");
    assert_eq!(sh.local_dir_name(), "carol_three");
    assert_eq!(
        sh.get_file_url("Visuals/a b.png"),
        "https://git.sr.ht/~carol/three/blob/trunk/Visuals/a%20b.png"
    );
}

#[test]
fn clone_urls_parse_back() {
    let sources = vec![
        github("alice", "decks"),
        GitSource::GitLab {
            user: "bob".to_string(),
            repo: "two".to_string(),
            default_branch: "master".to_string(),
        },
        GitSource::Sourcehut {
            user: "carol".to_string(),
            repo: "three".to_string(),
            default_branch: "trunk".to_string(),
        },
    ];
    for s in sources {
        let branch = match &s {
            GitSource::GitHub { default_branch, .. }
            | GitSource::GitLab { default_branch, .. }
            | GitSource::Sourcehut { default_branch, .. } => default_branch.clone(),
        };
        assert_eq!(GitSource::parse_url(&s.clone_url(), branch), Some(s));
    }
}

#[test]
fn gitmodules_lines() {
    let text = "[submodule \"a\"]\n\tpath = a\n\turl = https://github.com/u/a\r\n[submodule \"b\"]\n\turl = https://gitlab.com/u/b.git\n";
    assert_eq!(
        GitSource::gitmodules_urls(text),
        vec!["https://github.com/u/a".to_string(), "https://gitlab.com/u/b.git".to_string()]
    );
    assert_eq!(GitSource::gitmodules_urls(""), Vec::<String>::new());
    assert_eq!(GitSource::gitmodules_urls("\turl = x"), vec!["x".to_string()]);
}

#[test]
fn clone_wait_steps() {
    assert_eq!(clone_wait_step(false, 0), CloneWait::Wait);
    assert_eq!(clone_wait_step(true, 3), CloneWait::Ready);
    assert_eq!(clone_wait_step(false, 10), CloneWait::GiveUp);
    assert_eq!(clone_wait_step(true, 10), CloneWait::GiveUp);
}

#[test]
fn duplicate_sources_are_dropped() {
    let a = github("alice", "one");
    let b = github("bob", "two");
    let r = dedup_sources(&vec![a.clone(), b.clone(), a.clone()]);
    assert_eq!(r, vec![a, b]);
}

#[test]
fn deck_routes() {
    let decks = sample_decks();
    assert_eq!(deck_names(&decks), "one\ntwo\n");
    assert_eq!(deck_metadata(&decks, "two").unwrap().author, "bob");
    assert!(deck_metadata(&decks, "three").is_none());
    assert_eq!(
        get_visual(&decks, "one", 1).unwrap(),
        "https://raw.githubusercontent.com/alice/Deck%20One/main/Visuals/Sample%20Visual%202"
    );
    assert!(get_visual(&decks, "one", 2).is_none());
    assert_eq!(
        get_sound(&decks, "two", 3).unwrap(),
        "https://gitlab.com/bob/two/raw/master/Sounds/Sample%20Audio%204"
    );
    assert_eq!(
        get_cover(&decks, "two").unwrap(),
        "https://gitlab.com/bob/two/raw/master/cover.png"
    );
    assert!(get_cover(&decks, "none").is_none());
}

#[test]
fn category_theme_and_config_paths() {
    let categories = CategoryJSON {
        categories: vec![Category { name: "Anime".to_string(), icon: "anime.svg".to_string() }],
        types: vec!["Openings".to_string()],
    };
    assert_eq!(get_category_icon("Anime", &categories).unwrap(), "decks/Categories/anime.svg");
    assert!(get_category_icon("Games", &categories).is_none());
    assert_eq!(
        theme_names(&vec!["dark.json".to_string(), "notes.txt".to_string(), "light.json".to_string()]),
        "dark.json\nlight.json\n"
    );
    assert_eq!(get_theme("dark.json"), "decks/Themes/dark.json");
    let config = GlobalConfig {
        sources: vec![],
        decks_directory: "decks".to_string(),
        categories_directory: "cats".to_string(),
    };
    assert_eq!(config.categories_file(), "cats/categories.json");
    assert_eq!(config.deck_index_dir(&github("u", "r")), "decks/u_r");
}

#[test]
fn config_override() {
    let mut c = config(true, DuplicatePolicy::MatchMusic);
    c.apply_override(GameConfigOverride::default());
    assert!(c.has_ffa && c.duplicate_policy == DuplicatePolicy::MatchMusic);
    let o = GameConfigOverride { has_ffa: Some(false), duplicate_policy: None };
    c.apply_override(o);
    assert!(!c.has_ffa && c.duplicate_policy == DuplicatePolicy::MatchMusic);
    c.apply_override(o);
    assert!(!c.has_ffa);
    let d = default_game_config();
    assert!(d.has_ffa && d.duplicate_policy == DuplicatePolicy::MatchMusic);
}

#[test]
fn play_card_errors() {
    let cards = create_sample_cards();
    let mut g = GameState::new(config(false, DuplicatePolicy::MatchCard), vec![vec![cards[0].clone()]]);
    assert_eq!(g.guess_card(cards[0].clone()), Err("No card being played"));
    g.play_card_at(0, 0).unwrap();
    assert_eq!(g.play_card(), Err("Card already being played"));
    assert_eq!(
        g.guess_card(cards[0].clone()),
        Ok(CardGuessResult::Correct(GameContinuation::End))
    );
    assert_eq!(g.play_card(), Err("Game already ended"));
}

#[test]
fn wrong_guess_keeps_the_game() {
    let cards = create_sample_cards();
    let mut g = GameState::new(
        config(false, DuplicatePolicy::MatchMusic),
        vec![vec![cards[0].clone(), cards[1].clone()]],
    );
    g.play_card_at(0, 1).unwrap();
    assert_eq!(g.guess_card(cards[0].clone()), Ok(CardGuessResult::Incorrect));
    assert_eq!(g.get_boards().len(), 1);
    assert_eq!(g.get_boards()[0].len(), 2);
    assert_eq!(g.get_current_card_playing(), Some(&cards[1]));
}

#[test]
fn correct_guess_takes_one_card() {
    let cards = create_sample_cards();
    let mut g = GameState::new(
        config(false, DuplicatePolicy::MatchAnime),
        vec![vec![cards[0].clone(), cards[1].clone()], vec![cards[2].clone()]],
    );
    g.play_card_at(0, 0).unwrap();
    assert_eq!(
        g.guess_card(cards[3].clone()),
        Ok(CardGuessResult::Correct(GameContinuation::Continue))
    );
    assert_eq!(g.get_boards()[0], vec![cards[1].clone()]);
    assert_eq!(g.get_boards()[1], vec![cards[2].clone()]);
    assert!(g.get_current_card_playing().is_none());
    assert_eq!(*g.get_game_continuation(), GameContinuation::Continue);
}

#[test]
fn free_for_all_keeps_the_stored_continuation() {
    let cards = create_sample_cards();
    let mut g = GameState::new(
        config(true, DuplicatePolicy::MatchCard),
        vec![vec![cards[0].clone()], vec![cards[1].clone()]],
    );
    g.play_card_at(0, 0).unwrap();
    assert_eq!(
        g.guess_card(cards[0].clone()),
        Ok(CardGuessResult::Correct(GameContinuation::Ffa))
    );
    assert_eq!(*g.get_game_continuation(), GameContinuation::Continue);
    assert_eq!(g.get_boards().len(), 1);
    assert!(!g.has_game_ended());
}

#[test]
fn random_draw_stays_on_the_boards() {
    let cards = create_sample_cards();
    for _ in 0..50 {
        let mut g = GameState::new(
            config(false, DuplicatePolicy::MatchCard),
            vec![vec![cards[0].clone(), cards[1].clone(), cards[2].clone()], vec![cards[3].clone()]],
        );
        assert!(g.can_play_card());
        g.play_card().unwrap();
        assert!(g.get_current_card_playing().is_some());
    }
    let g = GameState::new(config(false, DuplicatePolicy::MatchCard), vec![vec![], vec![cards[0].clone()]]);
    assert!(!g.can_play_card());
}

#[test]
fn game_ids_are_fresh_letters_and_digits() {
    let cards = create_sample_cards();
    let mut index = GameIndex::new(config(true, DuplicatePolicy::MatchMusic));
    let a = index.create_game(vec![vec![cards[0].clone()]]);
    let b = index.create_game(vec![vec![cards[1].clone()]]);
    assert_ne!(a, b);
    assert_eq!(a.len(), 16);
    assert_eq!(b.len(), 16);
    assert!(a.chars().all(|c| c.is_ascii_alphanumeric()));
    assert_eq!(index.find_game(&b).unwrap().get_boards()[0], vec![cards[1].clone()]);
    index.remove_game(&a);
    assert!(index.find_game(&a).is_none());
    assert!(index.find_game(&b).is_some());
}

#[test]
fn create_routes() {
    let decks = sample_decks();
    let mut index = GameIndex::new(default_game_config());
    let missing = GameData { deck_names: vec!["one".to_string(), "zzz".to_string()], config_override: None };
    assert_eq!(
        karuta::game::create_game(&mut index, &decks, &missing),
        Reply { status: Status::NotFound, body: Err(Message::DeckNotFound) }
    );
    let data = GameData {
        deck_names: vec!["two".to_string(), "one".to_string()],
        config_override: Some(GameConfigOverride { has_ffa: Some(false), duplicate_policy: None }),
    };
    let r = karuta::game::create_game(&mut index, &decks, &data);
    assert_eq!(r.status, Status::Created);
    let id = r.body.unwrap();
    let c = get_game_config(&index, &id).body.unwrap();
    assert!(!c.has_ffa);
    assert_eq!(c.duplicate_policy, DuplicatePolicy::MatchMusic);
    let boards = get_boards(&index, &id).body.unwrap();
    assert_eq!(boards[0][0].id, 2);
    assert_eq!(boards[1][0].id, 0);
    assert_eq!(create_1v1_game(&mut index, &decks, "one", "nope").status, Status::NotFound);
    let r = create_1v1_game(&mut index, &decks, "one", "two");
    assert_eq!(r.status.code(), 201);
    let id2 = r.body.unwrap();
    assert!(get_game_config(&index, &id2).body.unwrap().has_ffa);
}

#[test]
fn play_and_guess_routes() {
    let cards = create_sample_cards();
    let mut index = GameIndex::new(config(false, DuplicatePolicy::MatchCard));
    let id = index.create_game(vec![vec![cards[0].clone()]]);
    let unknown = "nope".to_string();
    assert_eq!(play_card(&mut index, &unknown), Reply { status: Status::NotFound, body: Err(Message::GameNotFound) });
    assert_eq!(
        guess_card(&mut index, &id, cards[0].clone()),
        Reply { status: Status::BadRequest, body: Err(Message::NoCardPlaying) }
    );
    assert!(!play_card_would_fail(&index, &id));
    assert_eq!(play_card(&mut index, &id), Reply { status: Status::Created, body: Ok(cards[0].clone()) });
    assert_eq!(play_card(&mut index, &id), Reply { status: Status::Success, body: Ok(cards[0].clone()) });
    assert_eq!(
        guess_card(&mut index, &id, cards[1].clone()),
        Reply { status: Status::Success, body: Ok(CardGuessResult::Incorrect) }
    );
    assert_eq!(get_state(&index, &id).body, Ok(GameContinuation::Continue));
    assert_eq!(
        guess_card(&mut index, &id, cards[0].clone()),
        Reply { status: Status::Success, body: Ok(CardGuessResult::Correct(GameContinuation::End)) }
    );
    assert_eq!(get_state(&index, &id), Reply { status: Status::NotFound, body: Err(Message::GameNotFound) });
    assert_eq!(Message::NoCardPlaying.text(), "No card currently playing");
    assert_eq!(Status::Gone.code(), 410);
}

#[test]
fn ended_game_routes() {
    let cards = create_sample_cards();
    let mut index = GameIndex::new(config(true, DuplicatePolicy::MatchCard));
    let id = index.create_game(vec![vec![cards[0].clone()], vec![]]);
    {
        let game = index.get_game(&id).unwrap();
        game.play_card_at(0, 0).unwrap();
        assert_eq!(game.guess_card(cards[0].clone()), Ok(CardGuessResult::Correct(GameContinuation::End)));
    }
    assert_eq!(play_card(&mut index, &id), Reply { status: Status::Gone, body: Err(Message::GameEnded) });
    assert_eq!(
        guess_card(&mut index, &id, cards[0].clone()),
        Reply { status: Status::Gone, body: Err(Message::GameEnded) }
    );
    assert_eq!(move_card(&mut index, &id, 0, 0, 0), Reply { status: Status::Gone, body: Message::GameEnded });
}

#[test]
fn move_card_route() {
    let cards = create_sample_cards();
    let mut index = GameIndex::new(config(false, DuplicatePolicy::MatchCard));
    let id = index.create_game(vec![vec![cards[0].clone(), cards[1].clone()], vec![cards[2].clone()]]);
    let unknown = "nope".to_string();
    assert_eq!(move_card(&mut index, &unknown, 0, 0, 1).body, Message::GameNotFound);
    assert_eq!(move_card(&mut index, &id, 2, 0, 1), Reply { status: Status::NotFound, body: Message::PlayerNotFound });
    assert_eq!(move_card(&mut index, &id, 1, 5, 0), Reply { status: Status::NotFound, body: Message::CardNotFound });
    assert_eq!(move_card(&mut index, &id, 0, 0, 1), Reply { status: Status::Success, body: Message::Success });
    assert_eq!(get_player_board(&index, &id, 0).body, Ok(vec![cards[1].clone()]));
    assert_eq!(get_player_board(&index, &id, 1).body, Ok(vec![cards[2].clone(), cards[0].clone()]));
    assert_eq!(get_player_board(&index, &id, 2).body, Err(Message::PlayerNotFound));
    let total: usize = get_boards(&index, &id).body.unwrap().iter().map(|b| b.len()).sum();
    assert_eq!(total, 3);
}

#[test]
fn sample_cards() {
    let cards: Vec<Card> = create_sample_cards();
    assert_eq!(cards.len(), 4);
    assert_eq!(cards[3].title, "Sample Title 1");
    assert_eq!(cards[2].number, "ED");
}

#[test]
fn get_decks() {
    let decks = sample_decks();
    let names = deck_names(&decks);
    assert!(!names.is_empty());
    for deck_name in names.lines() {
        assert_eq!(deck_metadata(&decks, deck_name).unwrap().name, deck_name);
    }
}
