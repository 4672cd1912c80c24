use tmux_session_switcher::fzf::{parse_popup_result, PickerOutput};
use tmux_session_switcher::picker::state::PickerState;
use tmux_session_switcher::picker::{result_file_contents, PickerResult};

fn state_with(query: &str, items: usize) -> PickerState {
    let mut s = PickerState::new((0..items).map(|i| format!("item{}", i)).collect());
    for c in query.chars() {
        s.insert_char(c);
    }
    s
}

#[test]
fn delete_undoes_insert_mid_query() {
    let mut s = state_with("héllo", 0);
    s.cursor_left();
    s.cursor_left();
    let (query, cursor) = (s.query.clone(), s.cursor);
    s.insert_char('ß');
    assert_eq!(s.query, "hélßlo");
    s.delete_char_backward();
    assert_eq!(s.query, query);
    assert_eq!(s.cursor, cursor);
}

#[test]
fn right_undoes_left_and_back() {
    let mut s = state_with("a你b", 0);
    s.cursor_left();
    let cursor = s.cursor;
    s.cursor_left();
    s.cursor_right();
    assert_eq!(s.cursor, cursor);
    s.cursor_to_start();
    s.cursor_right();
    s.cursor_left();
    assert_eq!(s.cursor, 0);
}

#[test]
fn selection_stays_in_range() {
    let mut s = state_with("", 13);
    s.page_down(10);
    assert_eq!(s.selected, 10);
    s.page_down(10);
    assert_eq!(s.selected, 12);
    s.move_down();
    assert_eq!(s.selected, 12);
    s.update_filter(vec![3, 4]);
    assert_eq!(s.selected, 1);
    s.update_filter(vec![]);
    assert_eq!(s.selected, 0);
    s.page_down(10);
    assert_eq!(s.selected, 0);
}

fn round_trip(r: PickerResult) -> PickerOutput {
    let text = result_file_contents(&r).unwrap_or_default();
    parse_popup_result(&text)
}

#[test]
fn result_file_round_trip() {
    assert_eq!(round_trip(PickerResult::Selected(0)), PickerOutput::Selected(0));
    assert_eq!(round_trip(PickerResult::Selected(4096)), PickerOutput::Selected(4096));
    assert_eq!(round_trip(PickerResult::New("my window".to_string())), PickerOutput::New("my window".to_string()));
    assert_eq!(round_trip(PickerResult::New(String::new())), PickerOutput::New(String::new()));
    assert_eq!(round_trip(PickerResult::Cancelled), PickerOutput::Cancelled);
    // A name ending in white space loses it to trimming.
    assert_eq!(round_trip(PickerResult::New("x ".to_string())), PickerOutput::New("x".to_string()));
}
