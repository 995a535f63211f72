use vstd::prelude::*;

use crate::deck::Card;

verus! {

/// Four cards to play with: the first, third and fourth are of the same
/// anime, the first and fourth of the same music.
pub fn create_sample_cards() -> (cards: Vec<Card>)
    ensures
        cards@.len() == 4,
        cards@[0].id == 0,
        cards@[0].anime@ == "Sample Anime 1"@,
        cards@[0].number@ == "OP"@,
        cards@[0].image@ == "Sample Visual 1"@,
        cards@[0].audio@ == "Sample Audio 1"@,
        cards@[0].title@ == "Sample Title 1"@,
        cards@[0].authors@ == "Sample Author 1"@,
        cards@[0].anilist_id == 1,
        cards@[1].id == 1,
        cards@[1].anime@ == "Sample Anime 2"@,
        cards@[1].number@ == "OP"@,
        cards@[1].image@ == "Sample Visual 2"@,
        cards@[1].audio@ == "Sample Audio 2"@,
        cards@[1].title@ == "Sample Title 2"@,
        cards@[1].authors@ == "Sample Author 2"@,
        cards@[1].anilist_id == 2,
        cards@[2].id == 2,
        cards@[2].anime@ == "Sample Anime 1"@,
        cards@[2].number@ == "ED"@,
        cards@[2].image@ == "Sample Visual 3"@,
        cards@[2].audio@ == "Sample Audio 3"@,
        cards@[2].title@ == "Sample Title 3"@,
        cards@[2].authors@ == "Sample Author 3"@,
        cards@[2].anilist_id == 3,
        cards@[3].id == 3,
        cards@[3].anime@ == "Sample Anime 1"@,
        cards@[3].number@ == "OP"@,
        cards@[3].image@ == "Sample Visual 4"@,
        cards@[3].audio@ == "Sample Audio 4"@,
        cards@[3].title@ == "Sample Title 1"@,
        cards@[3].authors@ == "Sample Author 1"@,
        cards@[3].anilist_id == 4,
{
    let mut cards: Vec<Card> = Vec::new();
    cards.push(
        Card {
            id: 0,
            anime: String::from_str("Sample Anime 1"),
            number: String::from_str("OP"),
            image: String::from_str("Sample Visual 1"),
            audio: String::from_str("Sample Audio 1"),
            title: String::from_str("Sample Title 1"),
            authors: String::from_str("Sample Author 1"),
            anilist_id: 1,
        },
    );
    cards.push(
        Card {
            id: 1,
            anime: String::from_str("Sample Anime 2"),
            number: String::from_str("OP"),
            image: String::from_str("Sample Visual 2"),
            audio: String::from_str("Sample Audio 2"),
            title: String::from_str("Sample Title 2"),
            authors: String::from_str("Sample Author 2"),
            anilist_id: 2,
        },
    );
    cards.push(
        Card {
            id: 2,
            anime: String::from_str("Sample Anime 1"),
            number: String::from_str("ED"),
            image: String::from_str("Sample Visual 3"),
            audio: String::from_str("Sample Audio 3"),
            title: String::from_str("Sample Title 3"),
            authors: String::from_str("Sample Author 3"),
            anilist_id: 3,
        },
    );
    cards.push(
        Card {
            id: 3,
            anime: String::from_str("Sample Anime 1"),
            number: String::from_str("OP"),
            image: String::from_str("Sample Visual 4"),
            audio: String::from_str("Sample Audio 4"),
            title: String::from_str("Sample Title 1"),
            authors: String::from_str("Sample Author 1"),
            anilist_id: 4,
        },
    );
    cards
}

} // verus!
