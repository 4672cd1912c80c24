use tmux_session_switcher::tmux::favorite::Favorite;
use tmux_session_switcher::tmux::previous::PreviousWindow;
use tmux_session_switcher::tmux::window::Window;
use tmux_session_switcher::tmux::{
    create_new_window_args, current_session_args, current_window_args, format_window_base, get_previous_window_path, get_running_windows,
    list_windows_args, parse_current_session, parse_current_window, parse_windows, sort_by_priority, split_lines,
    ListItem,
};

fn make_window(active: bool, marked: bool, bell: bool) -> Window {
    Window {
        session_name: "work".to_string(),
        index: "1".to_string(),
        name: "editor".to_string(),
        active,
        marked,
        bell,
    }
}

fn priority(halves: u8) -> f32 {
    halves as f32 / 2.0
}

#[test]
fn test_display_bell_shows_icon() {
    let w = make_window(false, false, true);
    assert!(w.display_string().contains("🔔"));
}

#[test]
fn test_display_no_bell_no_icon() {
    let w = make_window(false, false, false);
    assert!(!w.display_string().contains("🔔"));
}

#[test]
fn test_sort_priority_bell_is_1() {
    let w = make_window(false, false, true);
    assert_eq!(priority(w.sort_priority_halves()), 1.0);
}

#[test]
fn test_sort_priority_active_beats_bell() {
    let w = make_window(true, false, true);
    assert_eq!(priority(w.sort_priority_halves()), 0.0);
}

#[test]
fn test_sort_priority_bell_beats_marked() {
    let bell_w = make_window(false, false, true);
    let marked_w = make_window(false, true, false);
    assert!(bell_w.sort_priority_halves() < marked_w.sort_priority_halves());
}

#[test]
fn test_get_running_windows_returns_result() {
    // The windows come back as a Result with a String error.
    let _: fn(Result<String, String>, &str) -> Result<Vec<Window>, String> = get_running_windows;
}

#[test]
fn test_format_window_base_pads_session() {
    let result = format_window_base("main", "3", "editor");
    assert_eq!(result, "main            -   3 - editor");
}

#[test]
fn test_format_window_base_long_session() {
    let result = format_window_base("verylongsessionname", "10", "term");
    assert_eq!(result, "verylongsessionname -  10 - term");
}

#[test]
fn test_window_base_format_padding() {
    let result = format_window_base("main", "3", "editor");
    assert_eq!(result, "main            -   3 - editor");
}

#[test]
fn test_window_base_format_long_session() {
    let result = format_window_base("verylongsessionname", "10", "term");
    assert_eq!(result, "verylongsessionname -  10 - term");
}

#[test]
fn window_display_has_all_icons_in_order() {
    let w = make_window(true, true, true);
    assert_eq!(w.display_string(), "work            -   1 - editor 🟢 ♥️ 🔔\n");
    let plain = make_window(false, false, false);
    assert_eq!(plain.display_string(), "work            -   1 - editor\n");
}

#[test]
fn window_priorities_in_half_steps() {
    assert_eq!(make_window(false, true, false).sort_priority_halves(), 4);
    assert_eq!(make_window(false, false, false).sort_priority_halves(), 6);
    let p = PreviousWindow {
        session_name: "s".to_string(),
        index: "2".to_string(),
        name: "n".to_string(),
    };
    assert_eq!(priority(p.sort_priority_halves()), 0.5);
    let f = Favorite { name: "x".to_string(), session_name: None, index: None, path: None };
    assert_eq!(priority(f.sort_priority_halves()), 5.0);
}

#[test]
fn previous_and_favorite_display() {
    let p = PreviousWindow {
        session_name: "main".to_string(),
        index: "2".to_string(),
        name: "vim".to_string(),
    };
    assert_eq!(p.display_string(), "main            -   2 - vim 🔙\n");
    let f = Favorite {
        name: "work".to_string(),
        session_name: Some("main".to_string()),
        index: Some(3),
        path: Some("/home/user".to_string()),
    };
    assert_eq!(f.display_string(), "main            -   3 - work ⭐️ /home/user\n");
    let bare = Favorite { name: "w".to_string(), session_name: None, index: None, path: None };
    assert_eq!(bare.display_string(), "                -     - w ⭐️ \n");
}

#[test]
fn switch_args_of_each_kind() {
    let w = make_window(false, false, false);
    assert_eq!(w.switch_args(), vec!["switch", "-t", "work:1"]);
    let f = Favorite {
        name: "work".to_string(),
        session_name: Some("main".to_string()),
        index: Some(3),
        path: Some("/tmp".to_string()),
    };
    assert_eq!(f.switch_args(), vec!["new-window", "-t", "main:3", "-k", "-n", "work", "-c", "/tmp"]);
    let only_index = Favorite { name: "w".to_string(), session_name: None, index: Some(4), path: None };
    assert_eq!(only_index.switch_args(), vec!["new-window", "-t", "4", "-k", "-n", "w"]);
    let none = Favorite { name: "w".to_string(), session_name: None, index: None, path: None };
    assert_eq!(none.switch_args(), vec!["new-window", "-S", "-n", "w"]);
}

#[test]
fn parse_windows_reads_list_windows_output() {
    let raw = "main|1|vim|1|0|0|\nmain|2|shell|0|1|0|\r\nother|1|logs|1|0|1|\nbroken line\n";
    let ws = parse_windows(raw, "main");
    assert_eq!(ws.len(), 3);
    assert_eq!(ws[0].session_name, "main");
    assert_eq!(ws[0].name, "vim");
    assert!(ws[0].active);
    assert!(!ws[1].active && ws[1].marked);
    assert_eq!(ws[1].name, "shell");
    // active only in the current session
    assert!(!ws[2].active && ws[2].bell);
}

#[test]
fn get_running_windows_passes_errors_through() {
    let r = get_running_windows(Err("tmux failed".to_string()), "main");
    assert_eq!(r.unwrap_err(), "tmux failed");
    let ok = get_running_windows(Ok("a|0|x|1|0|0|\n".to_string()), "a").unwrap();
    assert_eq!(ok.len(), 1);
    assert!(ok[0].active);
}

#[test]
fn split_lines_like_str_lines() {
    assert_eq!(split_lines("a\nb\r\n\nc"), vec!["a", "b", "", "c"]);
    assert_eq!(split_lines("a\n"), vec!["a"]);
    assert!(split_lines("").is_empty());
}

#[test]
fn parse_current_window_splits_four_parts() {
    let (s, i, n, p) = parse_current_window("main|2|vim|/home/u|x\n");
    assert_eq!((s.as_str(), i.as_str(), n.as_str(), p.as_str()), ("main", "2", "vim", "/home/u|x"));
    let (s, i, n, p) = parse_current_window("only");
    assert_eq!((s.as_str(), i.as_str(), n.as_str(), p.as_str()), ("only", "", "", ""));
}

#[test]
fn tmux_command_lines() {
    assert_eq!(create_new_window_args("main", "logs"), vec!["new-window", "-t", "main", "-n", "logs"]);
    let l = list_windows_args();
    assert_eq!(l[0], "list-windows");
    assert_eq!(l[1], "-a");
    assert_eq!(l[2], "-F");
    assert_eq!(
        l[3],
        "#{session_name}|#{window_index}|#{window_name}|#{window_active}|#{window_marked_flag}|#{window_bell_flag}|"
    );
    assert_eq!(get_previous_window_path("/home/u/.config/tss"), "/home/u/.config/tss/previous_window.json");
}

#[test]
fn sort_by_priority_orders_and_is_stable() {
    let fav = |n: &str| ListItem::Favorite(Favorite { name: n.to_string(), session_name: None, index: None, path: None });
    let win = |n: &str, active: bool, marked: bool, bell: bool| {
        ListItem::Window(Window {
            session_name: "s".to_string(),
            index: "1".to_string(),
            name: n.to_string(),
            active,
            marked,
            bell,
        })
    };
    let mut items = vec![
        fav("f1"),
        win("plain1", false, false, false),
        win("marked", false, true, false),
        win("bell", false, false, true),
        ListItem::Previous(PreviousWindow {
            session_name: "s".to_string(),
            index: "9".to_string(),
            name: "prev".to_string(),
        }),
        win("active", true, false, false),
        fav("f2"),
        win("plain2", false, false, false),
    ];
    sort_by_priority(&mut items);
    let names: Vec<String> = items.iter().map(|i| i.name()).collect();
    assert_eq!(names, vec!["active", "prev", "bell", "marked", "plain1", "plain2", "f1", "f2"]);
    let prios: Vec<u8> = items.iter().map(|i| i.sort_priority_halves()).collect();
    assert!(prios.windows(2).all(|w| w[0] <= w[1]));
}

#[test]
fn current_session_and_window_commands() {
    assert_eq!(current_session_args(), vec!["display-message", "-p", "#S"]);
    assert_eq!(parse_current_session("  main\n"), "main");
    assert_eq!(
        current_window_args(),
        vec!["display-message", "-p", "-F", "#{session_name}|#{window_index}|#{window_name}|#{pane_current_path}"]
    );
}
