use vstd::prelude::*;

verus! {

/// A category of decks and the file of its icon.
#[derive(Debug, Clone)]
pub struct Category {
    pub name: String,
    pub icon: String,
}

/// The known categories and types of decks.
#[derive(Debug, Clone)]
pub struct CategoryJSON {
    pub categories: Vec<Category>,
    pub types: Vec<String>,
}

/// `i` is the position of the first category named `name`.
pub open spec fn is_first_category_named(categories: Seq<Category>, name: Seq<char>, i: int) -> bool {
    &&& 0 <= i < categories.len()
    &&& categories[i].name@ == name
    &&& forall|j: int| 0 <= j < i ==> (#[trigger] categories[j]).name@ != name
}

/// Some category is named `name`.
pub open spec fn has_category_named(categories: Seq<Category>, name: Seq<char>) -> bool {
    exists|i: int| 0 <= i < categories.len() && (#[trigger] categories[i]).name@ == name
}

/// The path of the icon file of the first category named `name`.
pub fn get_category_icon(name: &str, categories: &CategoryJSON) -> (r: Option<String>)
    ensures
        r is None <==> !has_category_named(categories.categories@, name@),
        r matches Some(path) ==> exists|i: int|
            is_first_category_named(categories.categories@, name@, i) && path@
                == "decks/Categories/"@ + (#[trigger] categories.categories@[i]).icon@,
{
    let wanted = String::from_str(name);
    let mut i: usize = 0;
    while i < categories.categories.len()
        invariant
            i <= categories.categories@.len(),
            wanted@ == name@,
            forall|j: int| 0 <= j < i ==> (#[trigger] categories.categories@[j]).name@ != name@,
        decreases categories.categories@.len() - i,
    {
        if categories.categories[i].name == wanted {
            let mut path = String::new();
            path.append("decks/Categories/");
            path.append(categories.categories[i].icon.as_str());
            assert(is_first_category_named(categories.categories@, name@, i as int));
            return Some(path);
        }
        i = i + 1;
    }
    None
}

} // verus!
