use tmux_session_switcher::picker::filter::{query_words_fit, FuzzyFilter};
use tmux_session_switcher::picker::input::Action;
use tmux_session_switcher::picker::state::PickerState;
use tmux_session_switcher::picker::theme::{color_splits, parse_hex_color, picker_theme, Color, Theme};
use tmux_session_switcher::picker::ui::{
    cursor_column, empty_message, highlight_spans, item_width, prompt_text, row_colors, row_plan,
    separator, status_text, truncate_to_width, Truncated,
};
use tmux_session_switcher::picker::{apply_action, edit_fits, result_file_contents, PickerResult, StepOutcome};

fn strings(items: &[&str]) -> Vec<String> {
    items.iter().map(|s| s.to_string()).collect()
}

#[test]
fn test_empty_query_returns_all_in_order() {
    let mut f = FuzzyFilter::new();
    let items = vec!["alpha".to_string(), "beta".to_string(), "gamma".to_string()];
    let result = f.filter("", &items);
    assert_eq!(result, vec![0, 1, 2]);
}

#[test]
fn test_fuzzy_match_includes_matching_item() {
    let mut f = FuzzyFilter::new();
    let items = vec!["editor".to_string(), "terminal".to_string(), "server".to_string()];
    let result = f.filter("ed", &items);
    assert!(result.contains(&0), "editor should match 'ed'");
}

#[test]
fn test_no_match_returns_empty() {
    let mut f = FuzzyFilter::new();
    let items = vec!["alpha".to_string(), "beta".to_string()];
    let result = f.filter("zzz", &items);
    assert!(result.is_empty());
}

#[test]
fn test_filter_with_empty_items() {
    let mut f = FuzzyFilter::new();
    let result = f.filter("abc", &[]);
    assert!(result.is_empty());
}

#[test]
fn test_higher_score_appears_first() {
    let mut f = FuzzyFilter::new();
    let items = vec!["embedded".to_string(), "editor".to_string()];
    let result = f.filter("edi", &items);
    assert_eq!(result[0], 1, "editor should rank higher for 'edi'");
}

#[test]
fn filter_with_indices_gives_sorted_positions() {
    let mut f = FuzzyFilter::new();
    let items = strings(&["editor", "xyz"]);
    let r = f.filter_with_indices("edr", &items);
    assert_eq!(r.len(), 1);
    assert_eq!(r[0].0, 0);
    assert_eq!(r[0].1, vec![0, 1, 5]);
    let all = f.filter_with_indices("", &items);
    assert_eq!(all, vec![(0, vec![]), (1, vec![])]);
}

#[test]
fn test_truncate_short_string_unchanged() {
    let result = truncate_to_width("hello", 10);
    assert_eq!(result.as_str(), "hello");
    assert!(matches!(result, Truncated::Borrowed(_)), "no truncation must return Cow::Borrowed");
}

#[test]
fn test_truncate_exact_fit_unchanged() {
    let result = truncate_to_width("hello", 5);
    assert_eq!(result.as_str(), "hello");
    assert!(matches!(result, Truncated::Borrowed(_)), "exact fit must return Cow::Borrowed");
}

#[test]
fn test_truncate_ascii_adds_ellipsis() {
    assert_eq!(truncate_to_width("hello world", 8).as_str(), "hello w…");
}

#[test]
fn test_truncate_wide_chars() {
    assert_eq!(truncate_to_width("你好世界", 5).as_str(), "你好…");
}

#[test]
fn test_truncate_empty_string_unchanged() {
    assert_eq!(truncate_to_width("", 5).as_str(), "");
}

#[test]
fn test_truncated_detection_three_byte_char_boundary() {
    let raw = "a你";
    let truncated_text = truncate_to_width(raw, 2);
    assert_eq!(truncated_text.as_str(), "a…");
    assert!(matches!(truncated_text, Truncated::Owned(_)), "truncation must return Cow::Owned");
    assert_eq!(truncated_text.as_str().len(), raw.len(), "byte lengths are equal — old byte-length check would fail");
}

#[test]
fn truncate_to_zero_width() {
    assert_eq!(truncate_to_width("abc", 0).as_str(), "…");
    assert_eq!(truncate_to_width("abc", 1).as_str(), "…");
}

#[test]
fn hex_colors() {
    assert_eq!(parse_hex_color("#ff8c00"), Some(Color::Rgb(255, 140, 0)));
    assert_eq!(parse_hex_color("FF8C00"), Some(Color::Rgb(255, 140, 0)));
    assert_eq!(parse_hex_color("##0a0B0c"), Some(Color::Rgb(10, 11, 12)));
    assert_eq!(parse_hex_color("#fff"), None);
    assert_eq!(parse_hex_color("#gg0000"), None);
    assert_eq!(parse_hex_color(""), None);
    assert!(color_splits("#ff8c00"));
    assert!(color_splits("#é"));
    assert!(!color_splits("aéaaa"));
    assert!(color_splits("#abcdé"));
    assert!(!color_splits("#aébcd"));
    assert!(color_splits("#aébc"));
}

#[test]
fn themes_by_name() {
    let c = Theme::from_name("catppuccin");
    assert_eq!(c, Theme::from_name("catppuccin-mocha"));
    assert_eq!(c.prompt_fg, Color::Rgb(137, 180, 250));
    assert_eq!(Theme::from_name("tokyonight"), Theme::from_name("tokyo-night"));
    assert_eq!(Theme::from_name("solarized").bell_fg, Color::Rgb(203, 75, 22));
    let d = Theme::from_name("unknown");
    assert_eq!(d.highlight_bg, Color::Blue);
    assert_eq!(d.bell_fg, Color::Yellow);
}

#[test]
fn bell_color_override() {
    let t = picker_theme("nord", &Some("#010203".to_string()));
    assert_eq!(t.bell_fg, Color::Rgb(1, 2, 3));
    assert_eq!(t.prompt_fg, Theme::from_name("nord").prompt_fg);
    let kept = picker_theme("nord", &Some("oops".to_string()));
    assert_eq!(kept, Theme::from_name("nord"));
    assert_eq!(picker_theme("gruvbox", &None), Theme::from_name("gruvbox"));
}

#[test]
fn highlight_runs() {
    let runs = highlight_spans("editor", &[0, 1, 5]);
    let expect: Vec<(String, bool)> = vec![
        ("ed".to_string(), true),
        ("ito".to_string(), false),
        ("r".to_string(), true),
    ];
    assert_eq!(runs, expect);
    assert_eq!(highlight_spans("abc", &[]), vec![("abc".to_string(), false)]);
}

#[test]
fn row_plans() {
    let theme = Theme::from_name("nord");
    let p = row_plan("main - 1 - vim 🔔\n", &[11, 12], 80, &theme, true);
    assert_eq!(p.colors, row_colors(&theme, true, true));
    assert_eq!(p.colors.normal_fg, theme.bell_fg);
    assert_eq!(p.colors.normal_bg, Some(theme.highlight_bg));
    let text: String = p.runs.iter().map(|r| r.0.as_str()).collect();
    assert_eq!(text, "main - 1 - vim 🔔");
    assert_eq!(p.runs[1], ("vi".to_string(), true));
    let cut = row_plan("abcdefgh", &[0, 7], 4, &theme, false);
    assert_eq!(cut.runs, vec![("a".to_string(), true), ("bc…".to_string(), false)]);
    assert_eq!(cut.colors.normal_fg, theme.item_fg);
    assert_eq!(cut.colors.normal_bg, None);
}

#[test]
fn frame_texts() {
    assert_eq!(prompt_text("ab"), "> ab");
    assert_eq!(status_text(2, 5, 9), "  [3/5] 9 total");
    assert_eq!(status_text(0, 0, 9), "  [0/0] 9 total");
    assert_eq!(empty_message(""), vec!["  No matches"]);
    assert_eq!(empty_message("log"), vec!["  No matches", "  Press Enter to create 'log'"]);
    assert_eq!(separator(3), "───");
    assert_eq!(cursor_column("a你b", 4), 3);
    assert_eq!(item_width(10), 8);
    assert_eq!(item_width(1), 0);
}

#[test]
fn result_file_texts() {
    assert_eq!(result_file_contents(&PickerResult::Selected(12)), Some("12".to_string()));
    assert_eq!(result_file_contents(&PickerResult::New("logs".to_string())), Some("new:logs".to_string()));
    assert_eq!(result_file_contents(&PickerResult::Cancelled), None);
}

#[test]
fn apply_action_edits_filters_and_confirms() {
    let mut st = PickerState::new(strings(&["editor", "terminal", "server"]));
    let mut f = FuzzyFilter::new();
    assert_eq!(apply_action(&mut st, &mut f, Action::InsertChar('t')), StepOutcome::Continue);
    assert_eq!(st.query, "t");
    assert!(st.filtered.contains(&0) && st.filtered.contains(&1));
    assert!(!st.filtered.contains(&2));
    apply_action(&mut st, &mut f, Action::InsertChar('e'));
    apply_action(&mut st, &mut f, Action::InsertChar('r'));
    apply_action(&mut st, &mut f, Action::InsertChar('m'));
    assert_eq!(st.filtered, vec![1]);
    assert_eq!(apply_action(&mut st, &mut f, Action::Confirm), StepOutcome::Done(PickerResult::Selected(1)));
    apply_action(&mut st, &mut f, Action::DeleteToStart);
    assert_eq!(st.query, "");
    assert_eq!(st.filtered, vec![0, 1, 2]);
    apply_action(&mut st, &mut f, Action::MoveDown);
    apply_action(&mut st, &mut f, Action::MoveDown);
    apply_action(&mut st, &mut f, Action::MoveDown);
    assert_eq!(st.selected, 2);
    assert_eq!(apply_action(&mut st, &mut f, Action::Cancel), StepOutcome::Done(PickerResult::Cancelled));
}

#[test]
fn apply_action_unmatched_query_creates_window() {
    let mut st = PickerState::new(strings(&["alpha"]));
    let mut f = FuzzyFilter::new();
    for c in "zzz".chars() {
        apply_action(&mut st, &mut f, Action::InsertChar(c));
    }
    assert!(st.filtered.is_empty());
    assert_eq!(st.selected, 0);
    assert_eq!(
        apply_action(&mut st, &mut f, Action::Confirm),
        StepOutcome::Done(PickerResult::New("zzz".to_string()))
    );
    let mut empty = PickerState::new(vec![]);
    assert_eq!(apply_action(&mut empty, &mut f, Action::Confirm), StepOutcome::Done(PickerResult::Cancelled));
}

#[test]
fn all_themes_have_bell_fg() {
    for name in &["catppuccin", "nord", "gruvbox", "tokyo-night", "solarized-dark", "default"] {
        let theme = Theme::from_name(name);
        assert_ne!(theme.bell_fg, Color::Reset, "Theme {} has Reset bell_fg", name);
    }
}

#[test]
fn parse_hex_color_invalid_inputs() {
    assert_eq!(parse_hex_color("zzzzzz"), None);
    assert_eq!(parse_hex_color("#fff"), None);
}

#[test]
fn query_word_bounds() {
    assert!(query_words_fit(""));
    assert!(query_words_fit("ab cd"));
    let long = "a".repeat(2400);
    assert!(query_words_fit(&long));
    let too_long = "a".repeat(2401);
    assert!(!query_words_fit(&too_long));
    assert!(query_words_fit(&format!("{} {}", long, long)));
    let escaped = format!("{}\\ {}", "a".repeat(1300), "a".repeat(1300));
    assert!(!query_words_fit(&escaped));
}

#[test]
fn edit_fits_checks_the_edited_query() {
    let mut st = PickerState::new(vec![]);
    for c in "a".repeat(2400).chars() {
        st.insert_char(c);
    }
    assert!(!edit_fits(&st, Action::InsertChar('b')));
    assert!(edit_fits(&st, Action::InsertChar(' ')));
    assert!(edit_fits(&st, Action::DeleteCharBackward));
    assert!(edit_fits(&st, Action::MoveUp));
}

#[test]
fn filters_agree_on_values() {
    let mut f = FuzzyFilter::new();
    let items = strings(&["editor", "embedded", "terminal", "redis", "xyz"]);
    for q in ["e", "ed", "er", "zz", "t e"] {
        let a = f.filter(q, &items);
        let b: Vec<usize> = f.filter_with_indices(q, &items).into_iter().map(|r| r.0).collect();
        assert_eq!(a, b, "query {:?}", q);
    }
}
