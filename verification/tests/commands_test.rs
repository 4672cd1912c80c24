use tmux_session_switcher::args::PickerBackend;
use tmux_session_switcher::commands::{
    add_favorite, build_item_list, current_active_window, effective_theme, effective_use_fzf,
    favorite_to_remove, favorites_listing, handle_remove, internal_picker_config,
    previous_for_new_window, previous_to_save, removal_items, remove_picker_config, resolve_favorite,
    try_remove_favorite_by_name, RemoveAction,
};
use tmux_session_switcher::config::Config;
use tmux_session_switcher::fzf::{PickerConfig, PickerOutput};
use tmux_session_switcher::tmux::favorite::Favorite;
use tmux_session_switcher::tmux::previous::PreviousWindow;
use tmux_session_switcher::tmux::window::Window;
use tmux_session_switcher::tmux::ListItem;
use tmux_session_switcher::utils::{config_dir_path, expand_tilde, join_path};

fn make_fav(name: &str) -> Favorite {
    Favorite {
        name: name.to_string(),
        session_name: Some("main".to_string()),
        index: Some(1),
        path: Some("/tmp".to_string()),
    }
}

fn names(config: &Config) -> Vec<String> {
    config.favorites.as_ref().map(|v| v.iter().map(|f| f.name.clone()).collect()).unwrap_or_default()
}

#[test]
fn test_add_favorite_success() {
    let mut config = Config::empty();
    add_favorite(&mut config, make_fav("foo")).unwrap();
    let favs = config.favorites.unwrap();
    assert_eq!(favs.len(), 1);
    assert_eq!(favs[0].name, "foo");
}

#[test]
fn test_add_favorite_duplicate_returns_err() {
    let mut config = Config::empty();
    add_favorite(&mut config, make_fav("foo")).unwrap();
    let result = add_favorite(&mut config, make_fav("foo"));
    assert!(result.is_err());
    assert!(result.unwrap_err().contains("already exists"));
}

#[test]
fn test_remove_favorite_by_name_success() {
    let mut config = Config::empty();
    add_favorite(&mut config, make_fav("bar")).unwrap();
    assert!(try_remove_favorite_by_name(&mut config, "bar"));
    let favs = config.favorites.unwrap_or_default();
    assert!(favs.iter().all(|f| f.name != "bar"));
}

#[test]
fn test_remove_favorite_not_found() {
    let mut config = Config::empty();
    let result = try_remove_favorite_by_name(&mut config, "nonexistent");
    assert!(!result);
}

#[test]
fn test_remove_favorite_leaves_others_intact() {
    let mut config = Config::empty();
    add_favorite(&mut config, make_fav("keep")).unwrap();
    add_favorite(&mut config, make_fav("remove_me")).unwrap();
    assert!(try_remove_favorite_by_name(&mut config, "remove_me"));
    let favs = config.favorites.unwrap_or_default();
    assert_eq!(favs.len(), 1);
    assert_eq!(favs[0].name, "keep");
}

#[test]
fn duplicate_message_and_config_unchanged() {
    let mut config = Config::empty();
    config.theme = Some("nord".to_string());
    add_favorite(&mut config, make_fav("a")).unwrap();
    assert_eq!(add_favorite(&mut config, make_fav("a")).unwrap_err(), "Favorite 'a' already exists.");
    assert_eq!(names(&config), vec!["a"]);
    assert_eq!(config.theme, Some("nord".to_string()));
}

#[test]
fn remove_undoes_add_on_values() {
    let mut config = Config::empty();
    add_favorite(&mut config, make_fav("a")).unwrap();
    add_favorite(&mut config, make_fav("b")).unwrap();
    let before = names(&config);
    add_favorite(&mut config, make_fav("c")).unwrap();
    assert!(try_remove_favorite_by_name(&mut config, "c"));
    assert_eq!(names(&config), before);
}

#[test]
fn listing_of_favorites() {
    let mut config = Config::empty();
    assert_eq!(favorites_listing(&config), "No favorites found.\n");
    config.favorites = Some(vec![]);
    assert_eq!(favorites_listing(&config), "No favorites found.\n");
    add_favorite(&mut config, make_fav("w")).unwrap();
    add_favorite(&mut config, Favorite { name: "x".to_string(), session_name: None, index: None, path: None }).unwrap();
    assert_eq!(
        favorites_listing(&config),
        "main            -   1 - w ⭐️ /tmp\n                -     - x ⭐️ \n"
    );
}

#[test]
fn resolving_a_new_favorite() {
    let cur = || ("main".to_string(), "4".to_string(), "vim".to_string(), "/home/u".to_string());
    let f = resolve_favorite(None, None, None, None, cur()).unwrap();
    assert_eq!(f.name, "vim");
    assert_eq!(f.session_name, Some("main".to_string()));
    assert_eq!(f.index, Some(4));
    assert_eq!(f.path, Some("/home/u".to_string()));
    let g = resolve_favorite(
        Some("work".to_string()),
        Some("other".to_string()),
        Some(2),
        Some("".to_string()),
        cur(),
    )
    .unwrap();
    assert_eq!((g.name.as_str(), g.index, g.path.is_none()), ("work", Some(2), true));
    assert_eq!(g.session_name, Some("other".to_string()));
    let bad_index = resolve_favorite(None, None, None, None, ("s".to_string(), "x".to_string(), "n".to_string(), "".to_string()))
        .unwrap();
    assert_eq!(bad_index.index, None);
    assert_eq!(bad_index.path, None);
    let err = resolve_favorite(None, None, None, None, ("s".to_string(), "1".to_string(), "".to_string(), "".to_string()));
    assert_eq!(err.unwrap_err(), "Could not determine window name. Use --name to specify one.");
}

#[test]
fn removing_by_name_or_interactively() {
    assert_eq!(handle_remove(Some("x".to_string())), RemoveAction::ByName("x".to_string()));
    assert_eq!(handle_remove(None), RemoveAction::Interactive);
    let c = remove_picker_config(true, "nord");
    assert_eq!((c.title.as_str(), c.border.as_str(), c.layout.as_str()), ("Remove Favorite", "rounded", "default"));
    assert!(c.use_fzf);
    assert_eq!(c.theme, "nord");
    let mut config = Config::empty();
    add_favorite(&mut config, make_fav("a")).unwrap();
    add_favorite(&mut config, make_fav("b")).unwrap();
    assert_eq!(favorite_to_remove(&config, &PickerOutput::Selected(1)), Some("b".to_string()));
    assert_eq!(favorite_to_remove(&config, &PickerOutput::Selected(2)), None);
    assert_eq!(favorite_to_remove(&config, &PickerOutput::Cancelled), None);
    assert_eq!(favorite_to_remove(&config, &PickerOutput::New("z".to_string())), None);
}

#[test]
fn settings_from_command_line_then_config() {
    assert!(effective_use_fzf(Some(PickerBackend::Fzf), &None));
    assert!(!effective_use_fzf(Some(PickerBackend::Native), &Some("fzf".to_string())));
    assert!(effective_use_fzf(None, &Some("fzf".to_string())));
    assert!(!effective_use_fzf(None, &Some("native".to_string())));
    assert!(!effective_use_fzf(None, &None));
    assert_eq!(effective_theme(&Some("nord".to_string()), &Some("gruvbox".to_string())), "nord");
    assert_eq!(effective_theme(&None, &Some("gruvbox".to_string())), "gruvbox");
    assert_eq!(effective_theme(&None, &None), "catppuccin");
}

fn win(name: &str, active: bool) -> Window {
    Window {
        session_name: "s".to_string(),
        index: name.len().to_string(),
        name: name.to_string(),
        active,
        marked: false,
        bell: false,
    }
}

#[test]
fn item_list_and_previous_window() {
    let prev = PreviousWindow { session_name: "s".to_string(), index: "9".to_string(), name: "old".to_string() };
    let items = build_item_list(vec![make_fav("fav")], Some(prev), vec![win("ab", false), win("cur", true)]);
    let order: Vec<String> = items.iter().map(|i| i.name()).collect();
    assert_eq!(order, vec!["cur", "old", "ab", "fav"]);
    let windows = vec![win("ab", false), win("cur", true), win("x", true)];
    assert_eq!(current_active_window(&windows), Some(1));
    assert_eq!(current_active_window(&vec![win("a", false)]), None);
    let current = win("cur", true);
    let target = ListItem::Window(win("ab", false));
    let saved = previous_to_save(Some(&current), &target).unwrap();
    assert_eq!((saved.session_name.as_str(), saved.index.as_str(), saved.name.as_str()), ("s", "3", "cur"));
    assert!(previous_to_save(Some(&current), &ListItem::Window(win("cur", true))).is_none());
    assert!(previous_to_save(None, &target).is_none());
    assert_eq!(previous_for_new_window(Some(&current)).unwrap().name, "cur");
    assert!(previous_for_new_window(None).is_none());
}

#[test]
fn internal_config_carries_settings() {
    let cfg = PickerConfig {
        title: "T".to_string(),
        border: "double".to_string(),
        layout: "reverse".to_string(),
        use_fzf: false,
        theme: "nord".to_string(),
        bell_fg: Some("#112233".to_string()),
    };
    let c = internal_picker_config(vec!["a".to_string()], &cfg);
    assert_eq!(c.items, vec!["a"]);
    assert_eq!((c.title.as_str(), c.border.as_str(), c.layout.as_str(), c.theme.as_str()), ("T", "double", "reverse", "nord"));
    assert_eq!(c.bell_fg, Some("#112233".to_string()));
}

#[test]
fn test_config_dir_path_is_absolute() {
    let dir = config_dir_path(Some("/home/user"));
    assert!(dir.starts_with('/'), "config dir must be an absolute path");
    assert!(dir.ends_with("tmux-session-switcher"));
    assert_eq!(dir, "/home/user/.config/tmux-session-switcher");
    assert_eq!(config_dir_path(None), "./.config/tmux-session-switcher");
}

#[test]
fn paths_and_tilde() {
    assert_eq!(join_path("/a", "b"), "/a/b");
    assert_eq!(join_path("/a/", "b"), "/a/b");
    assert_eq!(join_path("/a", "/b"), "/b");
    assert_eq!(expand_tilde("~", Some("/home/u")), "/home/u");
    assert_eq!(expand_tilde("~/x/y", Some("/home/u")), "/home/u/x/y");
    assert_eq!(expand_tilde("~other", Some("/home/u")), "/home/u/~other");
    assert_eq!(expand_tilde("/etc/x", None), "/etc/x");
    assert_eq!(expand_tilde("rel", Some("/home/u")), "rel");
}

#[test]
fn removal_items_lists_favorites() {
    let mut config = Config::empty();
    assert!(removal_items(&config).is_none());
    config.favorites = Some(vec![]);
    assert!(removal_items(&config).is_none());
    add_favorite(&mut config, make_fav("w")).unwrap();
    assert_eq!(removal_items(&config), Some(vec!["main            -   1 - w ⭐️ /tmp\n".to_string()]));
}
