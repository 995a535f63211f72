use vstd::prelude::*;

use crate::git_repos::GitSource;

verus! {

/// The file that the server reads its configuration from.
pub const CONFIG_FILE_NAME: &'static str = "karuta.toml";

/// The server's configuration: where the deck indexes are, where they are
/// cloned, and where the categories file is.
#[derive(Debug, Clone)]
pub struct GlobalConfig {
    pub sources: Vec<String>,
    pub decks_directory: String,
    pub categories_directory: String,
}

impl GlobalConfig {
    /// The path of the categories file.
    pub fn categories_file(&self) -> (path: String)
        ensures
            path@ == self.categories_directory@ + "/categories.json"@,
    {
        let mut path = String::new();
        path.append(self.categories_directory.as_str());
        path.append("/categories.json");
        path
    }

    /// The directory that the deck index `source` is cloned into.
    pub fn deck_index_dir(&self, source: &GitSource) -> (path: String)
        ensures
            path@ == self.decks_directory@ + "/"@ + source.user() + "_"@ + source.repo(),
    {
        let mut path = String::new();
        path.append(self.decks_directory.as_str());
        path.append("/");
        path.append(source.local_dir_name().as_str());
        path
    }
}

} // verus!
