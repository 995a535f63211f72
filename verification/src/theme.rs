use vstd::prelude::*;

use crate::git_repos::strings_view;
use crate::text::{chars_of, contains_chars, contains_text};

verus! {

/// The names that hold `.json`, each followed by a line feed.
pub open spec fn theme_listing(file_names: Seq<Seq<char>>) -> Seq<char>
    decreases file_names.len(),
{
    if file_names.len() == 0 {
        Seq::empty()
    } else {
        let rest = theme_listing(file_names.drop_last());
        if contains_text(file_names.last(), ".json"@) {
            rest + file_names.last() + "\n"@
        } else {
            rest
        }
    }
}

/// The themes among the files of the themes directory: the names that hold
/// `.json`, each followed by a line feed.
pub fn theme_names(file_names: &Vec<String>) -> (r: String)
    ensures
        r@ == theme_listing(strings_view(file_names@)),
{
    let ext = chars_of(".json");
    let mut r = String::new();
    let mut i: usize = 0;
    while i < file_names.len()
        invariant
            i <= file_names@.len(),
            ext@ == ".json"@,
            r@ == theme_listing(strings_view(file_names@.take(i as int))),
        decreases file_names@.len() - i,
    {
        let name = file_names[i].as_str();
        assert(strings_view(file_names@.take(i + 1)).drop_last() =~= strings_view(
            file_names@.take(i as int),
        ));
        if contains_chars(&chars_of(name), &ext) {
            r.append(name);
            r.append("\n");
        }
        i = i + 1;
    }
    assert(file_names@.take(file_names@.len() as int) =~= file_names@);
    r
}

/// The path of the theme file `name`.
pub fn get_theme(name: &str) -> (path: String)
    ensures
        path@ == "decks/Themes/"@ + name@,
{
    let mut path = String::new();
    path.append("decks/Themes/");
    path.append(name);
    path
}

} // verus!
