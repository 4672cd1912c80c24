use tmux_session_switcher::picker::state::PickerState;

fn make(items: &[&str]) -> PickerState {
    PickerState::new(items.iter().map(|s| s.to_string()).collect())
}

#[test]
fn test_new_state() {
    let s = make(&["a", "b", "c"]);
    assert_eq!(s.query, "");
    assert_eq!(s.cursor, 0);
    assert_eq!(s.selected, 0);
    assert_eq!(s.filtered, vec![0, 1, 2]);
}

#[test]
fn test_insert_char() {
    let mut s = make(&[]);
    s.insert_char('a');
    s.insert_char('b');
    assert_eq!(s.query, "ab");
    assert_eq!(s.cursor, 2);
}

#[test]
fn test_delete_char_backward() {
    let mut s = make(&[]);
    s.insert_char('a');
    s.insert_char('b');
    s.delete_char_backward();
    assert_eq!(s.query, "a");
    assert_eq!(s.cursor, 1);
}

#[test]
fn test_delete_char_backward_at_start_is_noop() {
    let mut s = make(&[]);
    s.delete_char_backward();
    assert_eq!(s.query, "");
    assert_eq!(s.cursor, 0);
}

#[test]
fn test_delete_word_backward() {
    let mut s = make(&[]);
    for c in "foo bar".chars() {
        s.insert_char(c);
    }
    s.delete_word_backward();
    assert_eq!(s.query, "foo");
    assert_eq!(s.cursor, 3);
}

#[test]
fn test_delete_to_start() {
    let mut s = make(&[]);
    for c in "hello".chars() {
        s.insert_char(c);
    }
    s.delete_to_start();
    assert_eq!(s.query, "");
    assert_eq!(s.cursor, 0);
}

#[test]
fn test_cursor_movement() {
    let mut s = make(&[]);
    for c in "ab".chars() {
        s.insert_char(c);
    }
    s.cursor_left();
    assert_eq!(s.cursor, 1);
    s.cursor_right();
    assert_eq!(s.cursor, 2);
    s.cursor_to_start();
    assert_eq!(s.cursor, 0);
    s.cursor_to_end();
    assert_eq!(s.cursor, 2);
}

#[test]
fn test_cursor_left_at_start_is_noop() {
    let mut s = make(&[]);
    s.cursor_left();
    assert_eq!(s.cursor, 0);
}

#[test]
fn test_move_up_down() {
    let mut s = make(&["a", "b", "c"]);
    assert_eq!(s.selected, 0);
    s.move_down();
    assert_eq!(s.selected, 1);
    s.move_down();
    assert_eq!(s.selected, 2);
    s.move_down();
    assert_eq!(s.selected, 2);
    s.move_up();
    assert_eq!(s.selected, 1);
    s.move_up();
    s.move_up();
    assert_eq!(s.selected, 0);
}

#[test]
fn test_page_up_down() {
    let items: Vec<&str> = vec!["x"; 20];
    let mut s = make(&items);
    s.selected = 10;
    s.page_up(5);
    assert_eq!(s.selected, 5);
    s.page_down(8);
    assert_eq!(s.selected, 13);
    s.page_down(100);
    assert_eq!(s.selected, 19);
    s.page_up(100);
    assert_eq!(s.selected, 0);
}

#[test]
fn test_update_filter_clamps_selected() {
    let mut s = make(&["a", "b", "c"]);
    s.selected = 2;
    s.update_filter(vec![0]);
    assert_eq!(s.selected, 0);
}

#[test]
fn test_selected_item_index() {
    let mut s = make(&["a", "b", "c"]);
    s.update_filter(vec![2, 0]);
    assert_eq!(s.selected_item_index(), Some(2));
    s.move_down();
    assert_eq!(s.selected_item_index(), Some(0));
}

#[test]
fn test_selected_item_index_empty_filter() {
    let mut s = make(&["a", "b"]);
    s.update_filter(vec![]);
    assert_eq!(s.selected_item_index(), None);
}

#[test]
fn editing_respects_multibyte_characters() {
    let mut s = make(&[]);
    for c in "a你🔔".chars() {
        s.insert_char(c);
    }
    assert_eq!(s.cursor, "a你🔔".len());
    s.cursor_left();
    assert_eq!(s.cursor, "a你".len());
    s.insert_char('é');
    assert_eq!(s.query, "a你é🔔");
    s.delete_char_backward();
    assert_eq!(s.query, "a你🔔");
    assert_eq!(s.cursor, 4);
    s.cursor_right();
    assert_eq!(s.cursor, 8);
    s.cursor_right();
    assert_eq!(s.cursor, 8);
}

#[test]
fn delete_word_in_the_middle_keeps_the_tail() {
    let mut s = make(&[]);
    for c in "one two three".chars() {
        s.insert_char(c);
    }
    for _ in 0..6 {
        s.cursor_left();
    }
    s.delete_word_backward();
    assert_eq!(s.query, "one three");
    assert_eq!(s.cursor, 3);
    s.delete_to_start();
    assert_eq!(s.query, " three");
}

#[test]
fn update_filter_full_keeps_positions_by_rank() {
    let mut s = make(&["a", "b", "c"]);
    s.selected = 2;
    s.update_filter_full(vec![(1, vec![0]), (2, vec![])]);
    assert_eq!(s.filtered, vec![1, 2]);
    assert_eq!(s.match_indices, vec![vec![0], vec![]]);
    assert_eq!(s.selected, 1);
    s.page_down(5);
    assert_eq!(s.selected, 1);
}
