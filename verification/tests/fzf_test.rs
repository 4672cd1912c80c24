use tmux_session_switcher::fzf::{
    dispatch_picker, item_strings, parse_fzf_output, parse_popup_result, picker_height,
    popup_width, select_item, shell_quote, to_tmux_border, PickerConfig, PickerOutput, PopupFiles,
    SelectItemReturn,
};
use tmux_session_switcher::tmux::window::Window;
use tmux_session_switcher::tmux::ListItem;

fn config(use_fzf: bool) -> PickerConfig {
    PickerConfig {
        title: "Switch".to_string(),
        border: "bold".to_string(),
        layout: "reverse".to_string(),
        use_fzf,
        theme: "nord".to_string(),
        bell_fg: None,
    }
}

fn files() -> PopupFiles {
    PopupFiles {
        exe: "/usr/bin/tss".to_string(),
        items_path: "/tmp/it's.json".to_string(),
        result_path: "/tmp/r.txt".to_string(),
    }
}

#[test]
fn test_picker_config_fields_accessible() {
    let cfg = PickerConfig {
        title: "Test".to_string(),
        border: "rounded".to_string(),
        layout: "default".to_string(),
        use_fzf: false,
        theme: "nord".to_string(),
        bell_fg: Some("#ff0000".to_string()),
    };
    assert_eq!(cfg.title, "Test");
    assert_eq!(cfg.border, "rounded");
    assert_eq!(cfg.layout, "default");
    assert!(!cfg.use_fzf);
    assert_eq!(cfg.theme, "nord");
    assert_eq!(cfg.bell_fg, Some("#ff0000".to_string()));
}

#[test]
fn test_picker_config_no_bell_fg() {
    let cfg = PickerConfig {
        title: "x".to_string(),
        border: "sharp".to_string(),
        layout: "reverse".to_string(),
        use_fzf: true,
        theme: "gruvbox".to_string(),
        bell_fg: None,
    };
    assert!(cfg.bell_fg.is_none());
}

#[test]
fn shell_quote_escapes_single_quotes() {
    assert_eq!(shell_quote("abc"), "'abc'");
    assert_eq!(shell_quote("it's"), "'it'\\''s'");
    assert_eq!(shell_quote(""), "''");
}

#[test]
fn tmux_border_names() {
    assert_eq!(to_tmux_border("rounded"), "rounded");
    assert_eq!(to_tmux_border("double"), "double");
    assert_eq!(to_tmux_border("bold"), "heavy");
    assert_eq!(to_tmux_border("sharp"), "single");
    assert_eq!(to_tmux_border("none"), "none");
    assert_eq!(to_tmux_border("fancy"), "single");
}

#[test]
fn heights_and_width() {
    assert_eq!(picker_height(3, 6), 9);
    assert_eq!(picker_height(34, 6), 40);
    assert_eq!(picker_height(100, 5), 40);
    assert_eq!(popup_width(Some(60)), 60);
    assert_eq!(popup_width(Some(200)), 80);
    assert_eq!(popup_width(None), 80);
}

#[test]
fn dispatch_native_picker_in_popup() {
    let items = vec!["a\n".to_string(), "b\n".to_string()];
    let c = dispatch_picker(&items, &config(false), 72, &files());
    assert!(!c.fzf);
    assert_eq!(c.program, "tmux");
    assert_eq!(
        c.args,
        vec![
            "display-popup",
            "-EE",
            "-w",
            "72",
            "-h",
            "8",
            "-b",
            "heavy",
            "-T",
            " Switch ",
            "'/usr/bin/tss' internal-picker '/tmp/it'\\''s.json' '/tmp/r.txt'",
        ]
    );
    assert_eq!(c.input, "");
}

#[test]
fn dispatch_fzf() {
    let items = vec!["a\n".to_string(), "b\n".to_string()];
    let c = dispatch_picker(&items, &config(true), 80, &files());
    assert!(c.fzf);
    assert_eq!(c.program, "fzf");
    assert_eq!(
        c.args,
        vec![
            "--tmux",
            "80,7",
            "--layout=reverse",
            "--border=bold",
            "--border-label",
            " Switch ",
            "--prompt",
            "⚡",
            "--bind",
            "tab:down,btab:up",
            "--print-query",
        ]
    );
    assert_eq!(c.input, "a\nb\n");
}

#[test]
fn popup_result_file() {
    assert_eq!(parse_popup_result(""), PickerOutput::Cancelled);
    assert_eq!(parse_popup_result("  \n"), PickerOutput::Cancelled);
    assert_eq!(parse_popup_result("3\n"), PickerOutput::Selected(3));
    assert_eq!(parse_popup_result("+7"), PickerOutput::Selected(7));
    assert_eq!(parse_popup_result("new:logs"), PickerOutput::New("logs".to_string()));
    assert_eq!(parse_popup_result("garbage"), PickerOutput::Cancelled);
    assert_eq!(parse_popup_result("-1"), PickerOutput::Cancelled);
}

#[test]
fn fzf_output_lines() {
    let items = vec!["main - 1 - vim\n".to_string(), "main - 2 - zsh\n".to_string()];
    assert_eq!(parse_fzf_output("", &items), PickerOutput::Cancelled);
    assert_eq!(parse_fzf_output("zs\nmain - 2 - zsh\n", &items), PickerOutput::Selected(1));
    assert_eq!(parse_fzf_output("q\nnot there\n", &items), PickerOutput::Cancelled);
    assert_eq!(parse_fzf_output("newname\n", &items), PickerOutput::New("newname".to_string()));
}

fn window(name: &str) -> ListItem {
    ListItem::Window(Window {
        session_name: "s".to_string(),
        index: "1".to_string(),
        name: name.to_string(),
        active: false,
        marked: false,
        bell: false,
    })
}

#[test]
fn select_item_maps_output_to_entry() {
    let items = vec![window("a"), window("b")];
    let strings = item_strings(&items);
    assert_eq!(strings[1], "s               -   1 - b\n");
    match select_item(&items, PickerOutput::Selected(1)) {
        SelectItemReturn::Item(i) => assert_eq!(i.name(), "b"),
        _ => panic!("expected an entry"),
    }
    assert!(matches!(select_item(&items, PickerOutput::Selected(5)), SelectItemReturn::NoSelection));
    assert!(matches!(select_item(&items, PickerOutput::Cancelled), SelectItemReturn::NoSelection));
    match select_item(&items, PickerOutput::New("x".to_string())) {
        SelectItemReturn::NewWindowTitle(t) => assert_eq!(t, "x"),
        _ => panic!("expected a new window"),
    }
}
