use vstd::prelude::*;

use crate::git_repos::{lines_of, without_cr, GitSource};
use crate::text::{lemma_split_on_append, lemma_split_on_push_sep, spaces_encoded, split_on};

verus! {

/// Where a deck is stored.
pub type DeckSource = GitSource;

/// Links to the files that are commonly fetched from a deck's repository.
impl DeckSource {
    pub fn get_deck_json_url(&self) -> (url: String)
        ensures
            url@ == spaces_encoded(self.raw_file_url("deck.json"@)),
    {
        self.get_file_url("deck.json")
    }

    pub fn get_visual_url(&self, image_name: &str) -> (url: String)
        ensures
            url@ == spaces_encoded(self.raw_file_url("Visuals/"@ + image_name@)),
    {
        let mut path = String::new();
        path.append("Visuals/");
        path.append(image_name);
        self.get_file_url(path.as_str())
    }

    pub fn get_sound_url(&self, image_name: &str) -> (url: String)
        ensures
            url@ == spaces_encoded(self.raw_file_url("Sounds/"@ + image_name@)),
    {
        let mut path = String::new();
        path.append("Sounds/");
        path.append(image_name);
        self.get_file_url(path.as_str())
    }

    pub fn get_deck_cover_url(&self) -> (url: String)
        ensures
            url@ == spaces_encoded(self.raw_file_url("cover.png"@)),
    {
        self.get_file_url("cover.png")
    }
}

/// All the data of a single Karuta deck: some metadata and its cards.
///
/// The `category` and `type_` fields reference the entries of
/// [`CategoryJSON`](crate::categories::CategoryJSON).
#[derive(Debug, Clone)]
pub struct Deck {
    pub name: String,
    pub category: String,
    pub type_: String,
    pub author: String,
    pub cards: Vec<Card>,
}

/// All the data of a single Karuta card.
///
/// Each card has an `id` that is unique within its deck; it identifies the
/// resource files of the card.
#[derive(Debug, Clone, PartialEq, Eq)]
pub struct Card {
    pub id: u32,
    pub anime: String,
    pub number: String,
    pub title: String,
    pub authors: String,
    pub image: String,
    pub audio: String,
    pub anilist_id: u32,
}

/// Two cards hold the same data, field by field.
pub open spec fn same_card(a: Card, b: Card) -> bool {
    &&& a.id == b.id
    &&& a.anime@ == b.anime@
    &&& a.number@ == b.number@
    &&& a.title@ == b.title@
    &&& a.authors@ == b.authors@
    &&& a.image@ == b.image@
    &&& a.audio@ == b.audio@
    &&& a.anilist_id == b.anilist_id
}

impl Card {
    /// A field-by-field copy of the card.
    pub fn copy(&self) -> (r: Card)
        ensures
            r == *self,
    {
        Card {
            id: self.id,
            anime: self.anime.clone(),
            number: self.number.clone(),
            title: self.title.clone(),
            authors: self.authors.clone(),
            image: self.image.clone(),
            audio: self.audio.clone(),
            anilist_id: self.anilist_id,
        }
    }

    /// Whether the two cards hold the same data (the derived `==` of `Card`).
    pub fn same_as(&self, other: &Card) -> (r: bool)
        ensures
            r == same_card(*self, *other),
    {
        self.id == other.id && self.anime == other.anime && self.number == other.number
            && self.title == other.title && self.authors == other.authors && self.image
            == other.image && self.audio == other.audio && self.anilist_id == other.anilist_id
    }
}

/// A copy of a list of cards.
pub fn copy_cards(cards: &Vec<Card>) -> (r: Vec<Card>)
    ensures
        r@ == cards@,
{
    let mut r: Vec<Card> = Vec::new();
    let mut i: usize = 0;
    while i < cards.len()
        invariant
            i <= cards@.len(),
            r@ == cards@.take(i as int),
        decreases cards@.len() - i,
    {
        r.push(cards[i].copy());
        i = i + 1;
        assert(r@ =~= cards@.take(i as int));
    }
    assert(cards@.take(cards@.len() as int) =~= cards@);
    r
}

/// Two decks hold the same data.
pub open spec fn same_deck(a: Deck, b: Deck) -> bool {
    &&& a.name@ == b.name@
    &&& a.category@ == b.category@
    &&& a.type_@ == b.type_@
    &&& a.author@ == b.author@
    &&& a.cards@ == b.cards@
}

impl Deck {
    /// A field-by-field copy of the deck.
    pub fn copy(&self) -> (r: Deck)
        ensures
            same_deck(r, *self),
    {
        Deck {
            name: self.name.clone(),
            category: self.category.clone(),
            type_: self.type_.clone(),
            author: self.author.clone(),
            cards: copy_cards(&self.cards),
        }
    }
}

/// `i` is the position of the first deck named `name`.
pub open spec fn is_first_deck_named(decks: Seq<(DeckSource, Deck)>, name: Seq<char>, i: int) -> bool {
    &&& 0 <= i < decks.len()
    &&& decks[i].1.name@ == name
    &&& forall|j: int| 0 <= j < i ==> (#[trigger] decks[j]).1.name@ != name
}

/// Some deck is named `name`.
pub open spec fn has_deck_named(decks: Seq<(DeckSource, Deck)>, name: Seq<char>) -> bool {
    exists|i: int| 0 <= i < decks.len() && (#[trigger] decks[i]).1.name@ == name
}

/// `k` is the position of the first card with the id `id`.
pub open spec fn is_first_card_with_id(cards: Seq<Card>, id: u32, k: int) -> bool {
    &&& 0 <= k < cards.len()
    &&& cards[k].id == id
    &&& forall|j: int| 0 <= j < k ==> (#[trigger] cards[j]).id != id
}

/// Some card has the id `id`.
pub open spec fn has_card_with_id(cards: Seq<Card>, id: u32) -> bool {
    exists|k: int| 0 <= k < cards.len() && (#[trigger] cards[k]).id == id
}

/// The names of the decks, each followed by a line feed.
pub open spec fn names_listing(decks: Seq<(DeckSource, Deck)>) -> Seq<char>
    decreases decks.len(),
{
    if decks.len() == 0 {
        Seq::empty()
    } else {
        names_listing(decks.drop_last()) + decks.last().1.name@ + "\n"@
    }
}

/// The names of the decks, in order.
pub open spec fn names_of(decks: Seq<(DeckSource, Deck)>) -> Seq<Seq<char>> {
    decks.map_values(|d: (DeckSource, Deck)| d.1.name@)
}

/// No deck name holds a line feed or ends with a carriage return.
pub open spec fn names_are_lines(decks: Seq<(DeckSource, Deck)>) -> bool {
    forall|i: int|
        0 <= i < decks.len() ==> !(#[trigger] decks[i]).1.name@.contains('\n') && !(
        decks[i].1.name@.len() > 0 && decks[i].1.name@.last() == '\r')
}

proof fn lemma_split_listing(decks: Seq<(DeckSource, Deck)>)
    requires
        names_are_lines(decks),
    ensures
        split_on(names_listing(decks), '\n') == names_of(decks).push(Seq::<char>::empty()),
    decreases decks.len(),
{
    let e = Seq::<char>::empty();
    if decks.len() == 0 {
        assert(split_on(names_listing(decks), '\n') =~= seq![e]);
        assert(names_of(decks).push(e) =~= seq![e]);
    } else {
        let dl = decks.drop_last();
        assert(names_are_lines(dl)) by {
            assert forall|i: int| 0 <= i < dl.len() implies !(#[trigger] dl[i]).1.name@.contains(
                '\n',
            ) && !(dl[i].1.name@.len() > 0 && dl[i].1.name@.last() == '\r') by {
                assert(dl[i] == decks[i]);
            }
        }
        lemma_split_listing(dl);
        let name = decks.last().1.name@;
        assert(!name.contains('\n')) by {
            assert(decks[decks.len() - 1] == decks.last());
        }
        reveal_strlit("\n");
        let x = names_listing(dl) + name;
        assert(names_listing(decks) =~= x.push('\n'));
        lemma_split_on_append(names_listing(dl), name, '\n');
        assert(split_on(x, '\n') =~= names_of(dl).push(name));
        lemma_split_on_push_sep(x, '\n');
        assert(names_of(decks) =~= names_of(dl).push(name));
    }
}

/// Each line of the deck names listing is the name of a deck, which
/// [`deck_metadata`] then finds: the lines are the names of the decks, in
/// order, when no name holds a line feed or ends with a carriage return.
pub proof fn law_listed_names_find_their_decks(decks: Seq<(DeckSource, Deck)>)
    requires
        names_are_lines(decks),
    ensures
        lines_of(names_listing(decks)) == names_of(decks),
        forall|k: int|
            0 <= k < lines_of(names_listing(decks)).len() ==> has_deck_named(
                decks,
                #[trigger] lines_of(names_listing(decks))[k],
            ),
{
    lemma_split_listing(decks);
    let names = names_of(decks);
    let parts = split_on(names_listing(decks), '\n');
    assert(parts.drop_last() =~= names);
    assert(names.map_values(|l: Seq<char>| without_cr(l)) =~= names) by {
        assert forall|i: int| 0 <= i < names.len() implies without_cr(names[i]) == names[i] by {
            assert(names[i] == decks[i].1.name@);
        }
    }
    assert(lines_of(names_listing(decks)) =~= names);
    assert forall|k: int| 0 <= k < names.len() implies has_deck_named(decks, #[trigger] names[k]) by {
        assert(decks[k].1.name@ == names[k]);
    }
}

/// The position of the first deck named `deck_name`.
pub fn find_deck(decks: &Vec<(DeckSource, Deck)>, deck_name: &str) -> (r: Option<usize>)
    ensures
        r is None <==> !has_deck_named(decks@, deck_name@),
        r matches Some(i) ==> is_first_deck_named(decks@, deck_name@, i as int),
{
    let name = String::from_str(deck_name);
    let mut i: usize = 0;
    while i < decks.len()
        invariant
            i <= decks@.len(),
            name@ == deck_name@,
            forall|j: int| 0 <= j < i ==> (#[trigger] decks@[j]).1.name@ != deck_name@,
        decreases decks@.len() - i,
    {
        if decks[i].1.name == name {
            return Some(i);
        }
        i = i + 1;
    }
    None
}

/// The position of the first card with the id `id`.
pub fn find_card(cards: &Vec<Card>, id: u32) -> (r: Option<usize>)
    ensures
        r is None <==> !has_card_with_id(cards@, id),
        r matches Some(k) ==> is_first_card_with_id(cards@, id, k as int),
{
    let mut k: usize = 0;
    while k < cards.len()
        invariant
            k <= cards@.len(),
            forall|j: int| 0 <= j < k ==> (#[trigger] cards@[j]).id != id,
        decreases cards@.len() - k,
    {
        if cards[k].id == id {
            return Some(k);
        }
        k = k + 1;
    }
    None
}

/// The data of the first deck named `deck_name`.
pub fn deck_metadata(decks: &Vec<(DeckSource, Deck)>, deck_name: &str) -> (r: Option<Deck>)
    ensures
        r is None <==> !has_deck_named(decks@, deck_name@),
        r matches Some(d) ==> exists|i: int|
            is_first_deck_named(decks@, deck_name@, i) && same_deck(d, #[trigger] decks@[i].1),
{
    match find_deck(decks, deck_name) {
        Some(i) => Some(decks[i].1.copy()),
        None => None,
    }
}

/// The names of all the decks, each followed by a line feed.
pub fn deck_names(decks: &Vec<(DeckSource, Deck)>) -> (r: String)
    ensures
        r@ == names_listing(decks@),
{
    let mut r = String::new();
    let mut i: usize = 0;
    while i < decks.len()
        invariant
            i <= decks@.len(),
            r@ == names_listing(decks@.take(i as int)),
        decreases decks@.len() - i,
    {
        r.append(decks[i].1.name.as_str());
        r.append("\n");
        assert(decks@.take(i + 1).drop_last() =~= decks@.take(i as int));
        assert(r@ =~= names_listing(decks@.take(i + 1)));
        i = i + 1;
    }
    assert(decks@.take(decks@.len() as int) =~= decks@);
    r
}

/// The link to the visual file of the card `id` of the first deck named
/// `deck_name`.
pub fn get_visual(decks: &Vec<(DeckSource, Deck)>, deck_name: &str, id: u32) -> (r: Option<String>)
    ensures
        r is Some <==> exists|i: int|
            is_first_deck_named(decks@, deck_name@, i) && has_card_with_id(
                (#[trigger] decks@[i]).1.cards@,
                id,
            ),
        r matches Some(url) ==> exists|i: int, k: int|
            #![trigger is_first_card_with_id(decks@[i].1.cards@, id, k)]
            is_first_deck_named(decks@, deck_name@, i) && is_first_card_with_id(
                decks@[i].1.cards@,
                id,
                k,
            ) && url@ == spaces_encoded(
                decks@[i].0.raw_file_url("Visuals/"@ + decks@[i].1.cards@[k].image@),
            ),
{
    let i = find_deck(decks, deck_name)?;
    let k = find_card(&decks[i].1.cards, id)?;
    Some(decks[i].0.get_visual_url(decks[i].1.cards[k].image.as_str()))
}

/// The link to the sound file of the card `id` of the first deck named
/// `deck_name`.
pub fn get_sound(decks: &Vec<(DeckSource, Deck)>, deck_name: &str, id: u32) -> (r: Option<String>)
    ensures
        r is Some <==> exists|i: int|
            is_first_deck_named(decks@, deck_name@, i) && has_card_with_id(
                (#[trigger] decks@[i]).1.cards@,
                id,
            ),
        r matches Some(url) ==> exists|i: int, k: int|
            #![trigger is_first_card_with_id(decks@[i].1.cards@, id, k)]
            is_first_deck_named(decks@, deck_name@, i) && is_first_card_with_id(
                decks@[i].1.cards@,
                id,
                k,
            ) && url@ == spaces_encoded(
                decks@[i].0.raw_file_url("Sounds/"@ + decks@[i].1.cards@[k].audio@),
            ),
{
    let i = find_deck(decks, deck_name)?;
    let k = find_card(&decks[i].1.cards, id)?;
    Some(decks[i].0.get_sound_url(decks[i].1.cards[k].audio.as_str()))
}

/// The link to the cover file of the first deck named `deck_name`.
pub fn get_cover(decks: &Vec<(DeckSource, Deck)>, deck_name: &str) -> (r: Option<String>)
    ensures
        r is None <==> !has_deck_named(decks@, deck_name@),
        r matches Some(url) ==> exists|i: int|
            is_first_deck_named(decks@, deck_name@, i) && url@ == spaces_encoded(
                (#[trigger] decks@[i]).0.raw_file_url("cover.png"@),
            ),
{
    let i = find_deck(decks, deck_name)?;
    Some(decks[i].0.get_deck_cover_url())
}

} // verus!
