use siggy::editing::InputState;

fn input(buffer: &str, history: &[&str]) -> InputState {
    InputState {
        buffer: buffer.to_string(),
        history: history.iter().map(|h| h.to_string()).collect(),
        ..InputState::default()
    }
}

#[test]
fn history_up_empty_is_noop() {
    let mut s = input("draft", &[]);
    s.history_up();
    assert_eq!(s.buffer, "draft");
    assert_eq!(s.history_index, None);
}

#[test]
fn history_down_without_browsing_is_noop() {
    let mut s = input("draft", &[]);
    s.history_down();
    assert_eq!(s.buffer, "draft");
    assert_eq!(s.history_index, None);
}

#[test]
fn history_up_recalls_last_entry() {
    let mut s = input("draft", &["hello", "goodbye"]);
    s.cursor = 5;
    s.history_up();
    assert_eq!(s.buffer, "goodbye");
    assert_eq!(s.history_index, Some(1));
    assert_eq!(s.history_draft, "draft");
    assert_eq!(s.cursor, 7);
}

#[test]
fn history_up_walks_to_oldest() {
    let mut s = input("", &["first", "second", "third"]);
    s.history_up();
    assert_eq!(s.buffer, "third");
    assert_eq!(s.history_index, Some(2));
    s.history_up();
    assert_eq!(s.buffer, "second");
    assert_eq!(s.history_index, Some(1));
    s.history_up();
    assert_eq!(s.buffer, "first");
    assert_eq!(s.history_index, Some(0));
    s.history_up();
    assert_eq!(s.buffer, "first");
    assert_eq!(s.history_index, Some(0));
}

#[test]
fn history_down_walks_forward_and_restores_draft() {
    let mut s = input("my draft", &["aaa", "bbb"]);
    s.history_up();
    s.history_up();
    assert_eq!(s.buffer, "aaa");
    assert_eq!(s.history_index, Some(0));
    s.history_down();
    assert_eq!(s.buffer, "bbb");
    assert_eq!(s.history_index, Some(1));
    s.history_down();
    assert_eq!(s.buffer, "my draft");
    assert_eq!(s.history_index, None);
}

#[test]
fn history_cursor_moves_to_end() {
    let mut s = input("", &["short", "a longer entry"]);
    s.cursor = 0;
    s.history_up();
    assert_eq!(s.cursor, 14);
    s.history_up();
    assert_eq!(s.cursor, 5);
    s.history_down();
    assert_eq!(s.cursor, 14);
    s.history_down();
    assert_eq!(s.cursor, 0);
}

#[test]
fn down_on_last_line_falls_through_to_history() {
    let mut s = input("current", &["old"]);
    s.cursor = 3;
    s.history_index = Some(0);
    s.history_down();
    assert_eq!(s.history_index, None);
}

#[test]
fn history_round_trip_restores_wide_draft() {
    let mut s = input("caf\u{e9}", &["x"]);
    s.history_up();
    s.history_down();
    assert_eq!(s.buffer, "caf\u{e9}");
    assert_eq!(s.cursor, 5);
    assert_eq!(s.history_index, None);
}

use siggy::editing::EditKey;

fn at(buffer: &str, cursor: usize) -> InputState {
    InputState {
        buffer: buffer.to_string(),
        cursor,
        ..InputState::default()
    }
}

#[test]
fn up_on_first_line_uses_history() {
    let mut s = at("hello\nworld", 3);
    s.history = vec!["recalled".to_string()];
    let mut pending = false;
    assert!(s.apply_input_edit(EditKey::Up, &mut pending));
    assert_eq!(s.buffer, "recalled");
    assert!(s.apply_input_edit(EditKey::Down, &mut pending));
    assert_eq!(s.buffer, "hello\nworld");
}

#[test]
fn apply_input_edit_moves_between_lines() {
    let mut pending = false;
    let mut s = at("hello\nworld", 8);
    s.apply_input_edit(EditKey::Up, &mut pending);
    assert_eq!(s.cursor, 2);
    s.apply_input_edit(EditKey::Down, &mut pending);
    assert_eq!(s.cursor, 8);
    s.apply_input_edit(EditKey::Home, &mut pending);
    assert_eq!(s.cursor, 6);
    s.apply_input_edit(EditKey::End, &mut pending);
    assert_eq!(s.cursor, 11);
}

#[test]
fn apply_input_edit_inserts_and_deletes_whole_chars() {
    let mut pending = false;
    let mut s = at("ab", 1);
    s.apply_input_edit(EditKey::Char('\u{1F600}'), &mut pending);
    assert_eq!(s.buffer, "a\u{1F600}b");
    assert_eq!(s.cursor, 5);
    s.apply_input_edit(EditKey::Left, &mut pending);
    assert_eq!(s.cursor, 1);
    s.apply_input_edit(EditKey::Delete, &mut pending);
    assert_eq!(s.buffer, "ab");
    assert_eq!(s.cursor, 1);
    s.apply_input_edit(EditKey::Right, &mut pending);
    assert_eq!(s.cursor, 2);
    s.apply_input_edit(EditKey::Right, &mut pending);
    assert_eq!(s.cursor, 2);
    s.apply_input_edit(EditKey::Backspace, &mut pending);
    assert_eq!(s.buffer, "a");
    assert_eq!(s.cursor, 1);
    assert!(!s.apply_input_edit(EditKey::Other, &mut pending));
}

#[test]
fn backspace_at_start_drops_pending_attachment() {
    let mut pending = true;
    let mut s = at("x", 0);
    assert!(s.apply_input_edit(EditKey::Backspace, &mut pending));
    assert!(!pending);
    assert_eq!(s.buffer, "x");
    let mut pending = true;
    let mut s = at("x", 1);
    s.apply_input_edit(EditKey::Backspace, &mut pending);
    assert!(pending);
    assert_eq!(s.buffer, "");
}

#[test]
fn history_walks_k_steps_and_back() {
    let mut s = input("typing", &["a", "b", "c"]);
    for _ in 0..3 {
        s.history_up();
    }
    assert_eq!(s.buffer, "a");
    for _ in 0..3 {
        s.history_down();
    }
    assert_eq!(s.buffer, "typing");
    assert_eq!(s.cursor, 6);
    assert_eq!(s.history_index, None);
}
