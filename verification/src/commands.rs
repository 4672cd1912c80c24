//! What the subcommands decide: adding, removing and listing favorites, and
//! the choices made between the command line and the config file.

use vstd::prelude::*;

use crate::args::PickerBackend;
use crate::config::Config;
use crate::fzf::{PickerConfig, PickerOutput};
use crate::text::{
    chars_of, copy_opt_string, decimal_value, extend_chars, extend_str, parse_decimal, str_eq,
    string_of,
};
use crate::tmux::favorite::Favorite;
use crate::tmux::previous::PreviousWindow;
use crate::tmux::window::Window;
use crate::tmux::{by_priority, sort_by_priority, ListItem};

verus! {

/// Whether some favorite in `favs` is named `name`.
pub open spec fn has_favorite_named(favs: Seq<Favorite>, name: Seq<char>) -> bool {
    exists|i: int| 0 <= i < favs.len() && (#[trigger] favs[i]).name@ == name
}

/// Favorites not named `name`.
pub open spec fn not_named(name: Seq<char>) -> spec_fn(Favorite) -> bool {
    |f: Favorite| f.name@ != name
}

/// The message for a favorite that is already there.
pub open spec fn already_exists_message(name: Seq<char>) -> Seq<char> {
    "Favorite '"@ + name + "' already exists."@
}

fn find_favorite(favs: &Vec<Favorite>, name: &str) -> (r: bool)
    ensures
        r == has_favorite_named(favs@, name@),
{
    let mut i: usize = 0;
    while i < favs.len()
        invariant
            i <= favs@.len(),
            forall|j: int| 0 <= j < i ==> (#[trigger] favs@[j]).name@ != name@,
        decreases favs@.len() - i,
    {
        if str_eq(favs[i].name.as_str(), name) {
            assert(favs@[i as int].name@ == name@);
            return true;
        }
        i = i + 1;
    }
    false
}

/// Adds `fav` to the favorites, unless one with its name is there: then
/// the config is left as it was and the error says so.
pub fn add_favorite(config: &mut Config, fav: Favorite) -> (r: Result<(), String>)
    ensures
        has_favorite_named(old(config).favorite_list(), fav.name@) ==> {
            &&& r is Err
            &&& r->Err_0@ == already_exists_message(fav.name@)
            &&& *final(config) == *old(config)
        },
        !has_favorite_named(old(config).favorite_list(), fav.name@) ==> {
            &&& r is Ok
            &&& final(config).favorites is Some
            &&& final(config).favorite_list() == old(config).favorite_list().push(fav)
            &&& final(config).picker == old(config).picker
            &&& final(config).theme == old(config).theme
            &&& final(config).bell_fg == old(config).bell_fg
        },
{
    let exists = match &config.favorites {
        Some(favs) => find_favorite(favs, fav.name.as_str()),
        None => false,
    };
    if exists {
        let mut msg: Vec<char> = Vec::new();
        extend_str(&mut msg, "Favorite '");
        extend_str(&mut msg, fav.name.as_str());
        extend_str(&mut msg, "' already exists.");
        return Err(string_of(&msg));
    }
    let mut favs = match config.favorites.take() {
        Some(v) => v,
        None => Vec::new(),
    };
    favs.push(fav);
    config.favorites = Some(favs);
    Ok(())
}

/// Removes every favorite named `name`. Returns whether there was one; when
/// there was none the config is left as it was.
pub fn try_remove_favorite_by_name(config: &mut Config, name: &str) -> (removed: bool)
    ensures
        removed == has_favorite_named(old(config).favorite_list(), name@),
        removed ==> {
            &&& final(config).favorites is Some
            &&& final(config).favorite_list() == old(config).favorite_list().filter(not_named(name@))
            &&& final(config).picker == old(config).picker
            &&& final(config).theme == old(config).theme
            &&& final(config).bell_fg == old(config).bell_fg
        },
        !removed ==> *final(config) == *old(config),
{
    let present = match &config.favorites {
        Some(favs) => find_favorite(favs, name),
        None => false,
    };
    if !present {
        return false;
    }
    let favs = match config.favorites.take() {
        Some(v) => v,
        None => Vec::new(),
    };
    let ghost s = favs@;
    let mut kept: Vec<Favorite> = Vec::new();
    let mut i: usize = 0;
    reveal_with_fuel(Seq::filter, 1);
    while i < favs.len()
        invariant
            i <= favs@.len(),
            s == favs@,
            kept@ == s.take(i as int).filter(not_named(name@)),
        decreases favs@.len() - i,
    {
        proof {
            crate::tmux::lemma_filter_take_step(s, not_named(name@), i as int);
        }
        if !str_eq(favs[i].name.as_str(), name) {
            kept.push(favs[i].duplicate());
        }
        i = i + 1;
    }
    assert(s.take(s.len() as int) =~= s);
    config.favorites = Some(kept);
    true
}

/// No two favorites share a name.
pub open spec fn names_unique(favs: Seq<Favorite>) -> bool {
    forall|i: int, j: int|
        0 <= i < j < favs.len() ==> (#[trigger] favs[i]).name@ != (#[trigger] favs[j]).name@
}

/// Removing a favorite by name undoes adding it: when no favorite had the
/// name, adding one and then removing that name gives the list back.
pub proof fn lemma_remove_undoes_add(favs: Seq<Favorite>, fav: Favorite)
    requires
        !has_favorite_named(favs, fav.name@),
    ensures
        favs.push(fav).filter(not_named(fav.name@)) == favs,
{
    favs.lemma_filter_push(fav, not_named(fav.name@));
    lemma_filter_keeps_all(favs, fav.name@);
}

proof fn lemma_filter_keeps_all(favs: Seq<Favorite>, name: Seq<char>)
    requires
        !has_favorite_named(favs, name),
    ensures
        favs.filter(not_named(name)) == favs,
    decreases favs.len(),
{
    reveal_with_fuel(Seq::filter, 1);
    if favs.len() > 0 {
        let t = favs.drop_last();
        assert(!has_favorite_named(t, name)) by {
            if has_favorite_named(t, name) {
                let i = choose|i: int| 0 <= i < t.len() && (#[trigger] t[i]).name@ == name;
                assert(favs[i] == t[i]);
            }
        }
        lemma_filter_keeps_all(t, name);
        assert(favs[favs.len() - 1].name@ != name);
        assert(t.push(favs.last()) =~= favs);
    }
}

/// Adding keeps the favorites' names distinct: a favorite is only added
/// under a name that no other favorite has.
pub proof fn lemma_add_keeps_names_unique(favs: Seq<Favorite>, fav: Favorite)
    requires
        names_unique(favs),
        !has_favorite_named(favs, fav.name@),
    ensures
        names_unique(favs.push(fav)),
{
    let r = favs.push(fav);
    assert forall|i: int, j: int| 0 <= i < j < r.len() implies (#[trigger] r[i]).name@
        != (#[trigger] r[j]).name@ by {
        if j == favs.len() {
            assert(r[i] == favs[i]);
        } else {
            assert(r[i] == favs[i] && r[j] == favs[j]);
        }
    }
}

/// Removing by name leaves no favorite of that name, and keeps every other
/// favorite, in its order.
pub proof fn lemma_remove_leaves_others(favs: Seq<Favorite>, name: Seq<char>)
    ensures
        !has_favorite_named(favs.filter(not_named(name)), name),
        forall|i: int|
            0 <= i < favs.len() && (#[trigger] favs[i]).name@ != name ==> favs.filter(
                not_named(name),
            ).contains(favs[i]),
{
    broadcast use vstd::seq_lib::group_filter_ensures;
    let r = favs.filter(not_named(name));
    if has_favorite_named(r, name) {
        let i = choose|i: int| 0 <= i < r.len() && (#[trigger] r[i]).name@ == name;
        favs.lemma_filter_pred(not_named(name), i);
    }
}

/// What `favorite list` prints: each favorite's line, or a note that there
/// are none.
pub open spec fn favorites_listing_text(favs: Seq<Favorite>) -> Seq<char> {
    if favs.len() == 0 {
        "No favorites found.\n"@
    } else {
        crate::fzf::concat_items(favs.map_values(|f: Favorite| f.display()))
    }
}

/// What `favorite list` prints.
pub fn favorites_listing(config: &Config) -> (s: String)
    ensures
        s@ == favorites_listing_text(config.favorite_list()),
{
    let empty: Vec<Favorite> = Vec::new();
    let favs = match &config.favorites {
        Some(v) => v,
        None => &empty,
    };
    if favs.len() == 0 {
        return String::from_str("No favorites found.\n");
    }
    let ghost lines = favs@.map_values(|f: Favorite| f.display());
    let mut v: Vec<char> = Vec::new();
    let mut i: usize = 0;
    while i < favs.len()
        invariant
            i <= favs@.len(),
            lines == favs@.map_values(|f: Favorite| f.display()),
            v@ == crate::fzf::concat_items(lines.take(i as int)),
        decreases favs@.len() - i,
    {
        assert(lines.take(i as int + 1).drop_last() =~= lines.take(i as int));
        let line = favs[i].display_string();
        extend_str(&mut v, line.as_str());
        i = i + 1;
    }
    assert(lines.take(favs@.len() as int) =~= lines);
    string_of(&v)
}

/// The message when no window name can be found for a new favorite.
pub open spec fn no_name_message() -> Seq<char> {
    "Could not determine window name. Use --name to specify one."@
}

/// The favorite `favorite add` records: each value given on the command
/// line, else the current window's; the index only when it reads as a
/// number; the path only when it is not empty. Fails when no name is known.
pub open spec fn resolved_favorite(
    f: Favorite,
    name: Option<String>,
    session_name: Option<String>,
    index: Option<u16>,
    path: Option<String>,
    current: (Seq<char>, Seq<char>, Seq<char>, Seq<char>),
) -> bool {
    let cur_index: Option<u16> = match decimal_value(current.1) {
        Some(v) => if v <= 65535 {
            Some(v as u16)
        } else {
            None
        },
        None => None,
    };
    let p = match path {
        Some(p) => p@,
        None => current.3,
    };
    &&& f.name@ == match name {
        Some(n) => n@,
        None => current.2,
    }
    &&& f.session_name matches Some(s) && s@ == match session_name {
        Some(s) => s@,
        None => current.0,
    }
    &&& f.index == match index {
        Some(i) => Some(i),
        None => cur_index,
    }
    &&& if p.len() == 0 {
        f.path is None
    } else {
        f.path matches Some(q) && q@ == p
    }
}

/// The favorite to add from the command line and the current window
/// (session, index, name, path).
pub fn resolve_favorite(
    name: Option<String>,
    session_name: Option<String>,
    index: Option<u16>,
    path: Option<String>,
    current: (String, String, String, String),
) -> (r: Result<Favorite, String>)
    ensures
        ({
            let n = match name {
                Some(n) => n@,
                None => current.2@,
            };
            &&& n.len() == 0 ==> r is Err && r->Err_0@ == no_name_message()
            &&& n.len() > 0 ==> r is Ok && resolved_favorite(
                r->Ok_0,
                name,
                session_name,
                index,
                path,
                (current.0@, current.1@, current.2@, current.3@),
            )
        }),
{
    let (cur_session, cur_index_str, cur_name, cur_path) = current;
    let cur_index: Option<u16> = match parse_decimal(&chars_of(cur_index_str.as_str()), 65535) {
        Some(v) => Some(v as u16),
        None => None,
    };
    let resolved_name = match name {
        Some(n) => n,
        None => cur_name,
    };
    if resolved_name.as_str().is_empty() {
        return Err(String::from_str("Could not determine window name. Use --name to specify one."));
    }
    let session = match session_name {
        Some(s) => s,
        None => cur_session,
    };
    let p = match path {
        Some(p) => p,
        None => cur_path,
    };
    let path = if p.as_str().is_empty() {
        None
    } else {
        Some(p)
    };
    let index = match index {
        Some(i) => Some(i),
        None => cur_index,
    };
    Ok(Favorite { name: resolved_name, session_name: Some(session), index, path })
}

/// How `favorite remove` proceeds.
#[derive(Debug, PartialEq, Eq)]
pub enum RemoveAction {
    /// Remove the favorite with this name.
    ByName(String),
    /// Let the user pick the favorite to remove.
    Interactive,
}

/// `favorite remove` removes the named favorite, or asks which one.
pub fn handle_remove(name: Option<String>) -> (a: RemoveAction)
    ensures
        match name {
            Some(n) => a == RemoveAction::ByName(n),
            None => a == RemoveAction::Interactive,
        },
{
    match name {
        Some(n) => RemoveAction::ByName(n),
        None => RemoveAction::Interactive,
    }
}

/// The entries the picker offers for removal: each favorite's line, or
/// nothing (and no picker) when there are no favorites.
pub fn removal_items(config: &Config) -> (r: Option<Vec<String>>)
    ensures
        config.favorite_list().len() == 0 <==> r is None,
        r is Some ==> r->0@.len() == config.favorite_list().len() && forall|i: int|
            0 <= i < config.favorite_list().len() ==> (#[trigger] r->0@[i])@
                == config.favorite_list()[i].display(),
{
    let favs = match &config.favorites {
        Some(v) => v,
        None => {
            return None;
        },
    };
    if favs.len() == 0 {
        return None;
    }
    let mut out: Vec<String> = Vec::new();
    let mut i: usize = 0;
    while i < favs.len()
        invariant
            i <= favs@.len(),
            favs@ == config.favorite_list(),
            out@.len() == i,
            forall|j: int| 0 <= j < i ==> (#[trigger] out@[j])@ == favs@[j].display(),
        decreases favs@.len() - i,
    {
        out.push(favs[i].display_string());
        i = i + 1;
    }
    Some(out)
}

/// The picker settings for choosing a favorite to remove.
pub fn remove_picker_config(use_fzf: bool, theme: &str) -> (c: PickerConfig)
    ensures
        c.title@ == "Remove Favorite"@,
        c.border@ == "rounded"@,
        c.layout@ == "default"@,
        c.use_fzf == use_fzf,
        c.theme@ == theme@,
        c.bell_fg is None,
{
    PickerConfig {
        title: String::from_str("Remove Favorite"),
        border: String::from_str("rounded"),
        layout: String::from_str("default"),
        use_fzf,
        theme: String::from_str(theme),
        bell_fg: None,
    }
}

/// The name of the favorite the picker chose for removal, if any.
pub fn favorite_to_remove(config: &Config, output: &PickerOutput) -> (r: Option<String>)
    ensures
        match output {
            PickerOutput::Selected(i) => if *i < config.favorite_list().len() {
                r matches Some(n) && n@ == config.favorite_list()[*i as int].name@
            } else {
                r is None
            },
            _ => r is None,
        },
{
    match output {
        PickerOutput::Selected(i) => match &config.favorites {
            Some(favs) => if *i < favs.len() {
                Some(favs[*i].name.clone())
            } else {
                None
            },
            None => None,
        },
        _ => None,
    }
}

/// Whether fzf is used: as the command line says, else as the config says.
pub fn effective_use_fzf(picker: Option<PickerBackend>, config_picker: &Option<String>) -> (b: bool)
    ensures
        b == match picker {
            Some(PickerBackend::Fzf) => true,
            Some(PickerBackend::Native) => false,
            None => config_picker matches Some(p) && p@ == "fzf"@,
        },
{
    match picker {
        Some(PickerBackend::Fzf) => true,
        Some(PickerBackend::Native) => false,
        None => match config_picker {
            Some(p) => str_eq(p.as_str(), "fzf"),
            None => false,
        },
    }
}

/// The theme: as the command line says, else as the config says, else
/// `catppuccin`.
pub fn effective_theme(arg: &Option<String>, config_theme: &Option<String>) -> (t: String)
    ensures
        t@ == match arg {
            Some(a) => a@,
            None => match config_theme {
                Some(c) => c@,
                None => "catppuccin"@,
            },
        },
{
    match arg {
        Some(a) => a.clone(),
        None => match config_theme {
            Some(c) => c.clone(),
            None => String::from_str("catppuccin"),
        },
    }
}

/// The entries of the picker: the favorites, the previous window and the
/// running windows, in that order, then sorted by priority.
pub open spec fn item_list(favs: Seq<Favorite>, previous: Option<PreviousWindow>, windows: Seq<Window>) -> Seq<ListItem> {
    by_priority(
        favs.map_values(|f: Favorite| ListItem::Favorite(f)) + match previous {
            Some(p) => seq![ListItem::Previous(p)],
            None => Seq::empty(),
        } + windows.map_values(|w: Window| ListItem::Window(w)),
    )
}

/// The entries of the picker, sorted.
pub fn build_item_list(favorites: Vec<Favorite>, previous: Option<PreviousWindow>, windows: Vec<Window>) -> (items: Vec<ListItem>)
    ensures
        items@ == item_list(favorites@, previous, windows@),
{
    let ghost fv = favorites@;
    let ghost wv = windows@;
    let ghost pv = previous;
    let mut items: Vec<ListItem> = Vec::new();
    let mut i: usize = 0;
    while i < favorites.len()
        invariant
            i <= fv.len(),
            favorites@ == fv,
            items@ == fv.take(i as int).map_values(|f: Favorite| ListItem::Favorite(f)),
        decreases fv.len() - i,
    {
        items.push(ListItem::Favorite(favorites[i].duplicate()));
        assert(fv.take(i as int + 1).map_values(|f: Favorite| ListItem::Favorite(f)) =~= fv.take(i as int).map_values(|f: Favorite| ListItem::Favorite(f)).push(ListItem::Favorite(fv[i as int])));
        i = i + 1;
    }
    assert(fv.take(fv.len() as int) =~= fv);
    let ghost head = items@;
    match previous {
        Some(p) => items.push(ListItem::Previous(p)),
        None => {},
    }
    let ghost mid = items@;
    assert(mid =~= head + match pv {
        Some(p) => seq![ListItem::Previous(p)],
        None => Seq::<ListItem>::empty(),
    });
    let mut j: usize = 0;
    while j < windows.len()
        invariant
            j <= wv.len(),
            windows@ == wv,
            items@ == mid + wv.take(j as int).map_values(|w: Window| ListItem::Window(w)),
        decreases wv.len() - j,
    {
        items.push(ListItem::Window(windows[j].duplicate()));
        assert(wv.take(j as int + 1).map_values(|w: Window| ListItem::Window(w)) =~= wv.take(j as int).map_values(|w: Window| ListItem::Window(w)).push(ListItem::Window(wv[j as int])));
        j = j + 1;
    }
    assert(wv.take(wv.len() as int) =~= wv);
    assert(items@ =~= mid + wv.map_values(|w: Window| ListItem::Window(w)));
    sort_by_priority(&mut items);
    items
}

/// The first active window, if any.
pub fn current_active_window(windows: &Vec<Window>) -> (r: Option<usize>)
    ensures
        match r {
            Some(i) => i < windows@.len() && windows@[i as int].active && forall|j: int|
                0 <= j < i ==> !(#[trigger] windows@[j]).active,
            None => forall|j: int| 0 <= j < windows@.len() ==> !(#[trigger] windows@[j]).active,
        },
{
    let mut i: usize = 0;
    while i < windows.len()
        invariant
            i <= windows@.len(),
            forall|j: int| 0 <= j < i ==> !(#[trigger] windows@[j]).active,
        decreases windows@.len() - i,
    {
        if windows[i].active {
            return Some(i);
        }
        i = i + 1;
    }
    None
}

/// The window to remember as the previous one when going to `item` from
/// the current window: the current one, unless it is the target.
pub fn previous_to_save(current: Option<&Window>, item: &ListItem) -> (r: Option<PreviousWindow>)
    ensures
        match current {
            Some(w) => if w.session_name@ != item.spec_session_name() || w.index@ != item.spec_index()
                || w.name@ != item.spec_name() {
                r matches Some(p) && p.session_name@ == w.session_name@ && p.index@ == w.index@
                    && p.name@ == w.name@
            } else {
                r is None
            },
            None => r is None,
        },
{
    match current {
        Some(w) => {
            let s = item.session_name();
            let i = item.index();
            let n = item.name();
            if !str_eq(w.session_name.as_str(), s.as_str()) || !str_eq(w.index.as_str(), i.as_str())
                || !str_eq(w.name.as_str(), n.as_str()) {
                Some(
                    PreviousWindow {
                        session_name: w.session_name.clone(),
                        index: w.index.clone(),
                        name: w.name.clone(),
                    },
                )
            } else {
                None
            }
        },
        None => None,
    }
}

/// The window to remember as the previous one when a new window is
/// created: the current one, if any.
pub fn previous_for_new_window(current: Option<&Window>) -> (r: Option<PreviousWindow>)
    ensures
        match current {
            Some(w) => r matches Some(p) && p.session_name@ == w.session_name@ && p.index@
                == w.index@ && p.name@ == w.name@,
            None => r is None,
        },
{
    match current {
        Some(w) => Some(
            PreviousWindow {
                session_name: w.session_name.clone(),
                index: w.index.clone(),
                name: w.name.clone(),
            },
        ),
        None => None,
    }
}

/// What the popup hands the native picker: the entries and the look.
pub fn internal_picker_config(items: Vec<String>, config: &PickerConfig) -> (c: crate::picker::PickerConfig)
    ensures
        c.items@ == items@,
        c.title@ == config.title@,
        c.border@ == config.border@,
        c.layout@ == config.layout@,
        c.theme@ == config.theme@,
        c.bell_fg == config.bell_fg,
{
    crate::picker::PickerConfig {
        items,
        title: config.title.clone(),
        border: config.border.clone(),
        layout: config.layout.clone(),
        theme: config.theme.clone(),
        bell_fg: copy_opt_string(&config.bell_fg),
    }
}

} // verus!
