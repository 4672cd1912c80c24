use tmux_session_switcher::picker::input::{key_to_action, Action, KeyCode, KeyEvent, KeyModifiers};

fn key(code: KeyCode, modifiers: KeyModifiers) -> KeyEvent {
    KeyEvent::new(code, modifiers)
}

#[test]
fn test_ctrl_c_is_cancel() {
    assert_eq!(key_to_action(key(KeyCode::Char('c'), KeyModifiers::CONTROL)), Action::Cancel);
}

#[test]
fn test_ctrl_g_is_cancel() {
    assert_eq!(key_to_action(key(KeyCode::Char('g'), KeyModifiers::CONTROL)), Action::Cancel);
}

#[test]
fn test_esc_is_cancel() {
    assert_eq!(key_to_action(key(KeyCode::Esc, KeyModifiers::NONE)), Action::Cancel);
}

#[test]
fn test_enter_is_confirm() {
    assert_eq!(key_to_action(key(KeyCode::Enter, KeyModifiers::NONE)), Action::Confirm);
}

#[test]
fn test_up_is_move_up() {
    assert_eq!(key_to_action(key(KeyCode::Up, KeyModifiers::NONE)), Action::MoveUp);
}

#[test]
fn test_ctrl_k_is_move_up() {
    assert_eq!(key_to_action(key(KeyCode::Char('k'), KeyModifiers::CONTROL)), Action::MoveUp);
}

#[test]
fn test_ctrl_p_is_move_up() {
    assert_eq!(key_to_action(key(KeyCode::Char('p'), KeyModifiers::CONTROL)), Action::MoveUp);
}

#[test]
fn test_down_is_move_down() {
    assert_eq!(key_to_action(key(KeyCode::Down, KeyModifiers::NONE)), Action::MoveDown);
}

#[test]
fn test_ctrl_j_is_move_down() {
    assert_eq!(key_to_action(key(KeyCode::Char('j'), KeyModifiers::CONTROL)), Action::MoveDown);
}

#[test]
fn test_ctrl_n_is_move_down() {
    assert_eq!(key_to_action(key(KeyCode::Char('n'), KeyModifiers::CONTROL)), Action::MoveDown);
}

#[test]
fn test_tab_is_move_down() {
    assert_eq!(key_to_action(key(KeyCode::Tab, KeyModifiers::NONE)), Action::MoveDown);
}

#[test]
fn test_backtab_is_move_up() {
    assert_eq!(key_to_action(key(KeyCode::BackTab, KeyModifiers::NONE)), Action::MoveUp);
}

#[test]
fn test_pageup_is_page_up() {
    assert_eq!(key_to_action(key(KeyCode::PageUp, KeyModifiers::NONE)), Action::PageUp);
}

#[test]
fn test_pagedown_is_page_down() {
    assert_eq!(key_to_action(key(KeyCode::PageDown, KeyModifiers::NONE)), Action::PageDown);
}

#[test]
fn test_ctrl_a_is_cursor_to_start() {
    assert_eq!(key_to_action(key(KeyCode::Char('a'), KeyModifiers::CONTROL)), Action::CursorToStart);
}

#[test]
fn test_ctrl_e_is_cursor_to_end() {
    assert_eq!(key_to_action(key(KeyCode::Char('e'), KeyModifiers::CONTROL)), Action::CursorToEnd);
}

#[test]
fn test_ctrl_b_is_cursor_left() {
    assert_eq!(key_to_action(key(KeyCode::Char('b'), KeyModifiers::CONTROL)), Action::CursorLeft);
}

#[test]
fn test_left_is_cursor_left() {
    assert_eq!(key_to_action(key(KeyCode::Left, KeyModifiers::NONE)), Action::CursorLeft);
}

#[test]
fn test_ctrl_f_is_cursor_right() {
    assert_eq!(key_to_action(key(KeyCode::Char('f'), KeyModifiers::CONTROL)), Action::CursorRight);
}

#[test]
fn test_right_is_cursor_right() {
    assert_eq!(key_to_action(key(KeyCode::Right, KeyModifiers::NONE)), Action::CursorRight);
}

#[test]
fn test_backspace_is_delete_char_backward() {
    assert_eq!(key_to_action(key(KeyCode::Backspace, KeyModifiers::NONE)), Action::DeleteCharBackward);
}

#[test]
fn test_ctrl_h_is_delete_char_backward() {
    assert_eq!(key_to_action(key(KeyCode::Char('h'), KeyModifiers::CONTROL)), Action::DeleteCharBackward);
}

#[test]
fn test_ctrl_w_is_delete_word_backward() {
    assert_eq!(key_to_action(key(KeyCode::Char('w'), KeyModifiers::CONTROL)), Action::DeleteWordBackward);
}

#[test]
fn test_ctrl_u_is_delete_to_start() {
    assert_eq!(key_to_action(key(KeyCode::Char('u'), KeyModifiers::CONTROL)), Action::DeleteToStart);
}

#[test]
fn test_printable_char_is_insert() {
    assert_eq!(key_to_action(key(KeyCode::Char('x'), KeyModifiers::NONE)), Action::InsertChar('x'));
}

#[test]
fn test_shift_char_is_insert() {
    assert_eq!(key_to_action(key(KeyCode::Char('X'), KeyModifiers::SHIFT)), Action::InsertChar('X'));
}

#[test]
fn unbound_keys_do_nothing() {
    assert_eq!(key_to_action(key(KeyCode::Char('z'), KeyModifiers::CONTROL)), Action::Noop);
    assert_eq!(key_to_action(key(KeyCode::Char('x'), KeyModifiers::ALT)), Action::Noop);
    assert_eq!(key_to_action(key(KeyCode::Home, KeyModifiers::NONE)), Action::Noop);
    // Control with shift is not plain control.
    assert_eq!(key_to_action(key(KeyCode::Char('c'), KeyModifiers::Bits(3))), Action::Noop);
    // A bit set equal to a named modifier acts like it.
    assert_eq!(key_to_action(key(KeyCode::Char('c'), KeyModifiers::Bits(2))), Action::Cancel);
}
