//! Game logic, deck catalogue and URL building of a Karuta game server.

pub mod categories;
pub mod config;
pub mod deck;
pub mod game;
pub mod git_repos;
mod rng;
pub mod text;
pub mod theme;

pub use deck::{Card, Deck};

pub use game::state;
pub use game::{DuplicatePolicy, GameConfig, GameConfigOverride, GameData};
pub use game::index::GameIndex;
