//! The config file's contents and the edits made to its favorites.

use vstd::prelude::*;

use crate::tmux::favorite::Favorite;

verus! {

/// What `config.toml` holds.
#[derive(Debug)]
pub struct Config {
    pub favorites: Option<Vec<Favorite>>,
    pub picker: Option<String>,
    pub theme: Option<String>,
    pub bell_fg: Option<String>,
}

impl Config {
    /// The config of an empty or missing file.
    pub fn empty() -> (c: Config)
        ensures
            c.favorites is None,
            c.picker is None,
            c.theme is None,
            c.bell_fg is None,
    {
        Config { favorites: None, picker: None, theme: None, bell_fg: None }
    }

    /// The favorites, none when the file has no list.
    pub open spec fn favorite_list(&self) -> Seq<Favorite> {
        match self.favorites {
            Some(v) => v@,
            None => Seq::empty(),
        }
    }
}

} // verus!
