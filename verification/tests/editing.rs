use siggy::editing::{
    current_line_end, current_line_start, cursor_down_target, cursor_line_col, cursor_up_target,
    delete_word_back, find_mention_trigger, input_line_count,
};

#[test]
fn input_line_count_single_line() {
    assert_eq!(input_line_count("hello"), 1);
}

#[test]
fn input_line_count_multi_line() {
    assert_eq!(input_line_count("hello\nworld\nfoo"), 3);
    assert_eq!(input_line_count(""), 1);
    assert_eq!(input_line_count("trailing\n"), 2);
}

#[test]
fn cursor_line_col_first_line() {
    assert_eq!(cursor_line_col("hello\nworld", 3), (0, 3));
}

#[test]
fn cursor_line_col_second_line() {
    assert_eq!(cursor_line_col("hello\nworld", 8), (1, 2));
}

#[test]
fn cursor_line_col_at_newline() {
    assert_eq!(cursor_line_col("hello\nworld", 6), (1, 0));
}

#[test]
fn cursor_line_col_counts_chars_not_bytes() {
    // "é" is two bytes; the cursor after "aé" sits at byte 3, column 2.
    assert_eq!(cursor_line_col("x\na\u{e9}b", 5), (1, 2));
}

#[test]
fn current_line_bounds_are_byte_offsets() {
    let buf = "hello\nw\u{1F600}rld\nend";
    assert_eq!(current_line_start(buf, 8), 6);
    assert_eq!(current_line_end(buf, 8), 14);
    assert_eq!(current_line_start(buf, 3), 0);
    assert_eq!(current_line_end(buf, 3), 5);
    assert_eq!(current_line_start(buf, buf.len()), 15);
    assert_eq!(current_line_end(buf, buf.len()), buf.len());
}

#[test]
fn delete_word_back_removes_space_then_word() {
    let mut buf = "hello big  world".to_string();
    let mut cursor = 11;
    delete_word_back(&mut buf, &mut cursor);
    assert_eq!(buf, "hello world");
    assert_eq!(cursor, 6);

    let mut buf = "one two".to_string();
    let mut cursor = buf.len();
    delete_word_back(&mut buf, &mut cursor);
    assert_eq!(buf, "one ");
    assert_eq!(cursor, 4);
}

#[test]
fn delete_word_back_at_start_and_with_wide_chars() {
    let mut buf = "abc".to_string();
    let mut cursor = 0;
    delete_word_back(&mut buf, &mut cursor);
    assert_eq!(buf, "abc");
    assert_eq!(cursor, 0);

    let mut buf = "x \u{1F600}\u{1F600}".to_string();
    let mut cursor = buf.len();
    delete_word_back(&mut buf, &mut cursor);
    assert_eq!(buf, "x ");
    assert_eq!(cursor, 2);
}

#[test]
fn mention_trigger_needs_a_word_boundary_and_no_space() {
    assert_eq!(find_mention_trigger("hi @al", 6), Some(3));
    assert_eq!(find_mention_trigger("@al", 3), Some(0));
    assert_eq!(find_mention_trigger("mail@host", 9), None);
    assert_eq!(find_mention_trigger("@al ice", 7), None);
    assert_eq!(find_mention_trigger("no mention", 10), None);
    assert_eq!(find_mention_trigger("\u{e9} @x", 5), Some(3));
    assert_eq!(find_mention_trigger("a\t@b", 4), Some(2));
}

#[test]
fn up_navigates_between_lines() {
    assert_eq!(cursor_up_target("hello\nworld", 8), Some(2));
}

#[test]
fn down_navigates_between_lines() {
    assert_eq!(cursor_down_target("hello\nworld", 2), Some(8));
}

#[test]
fn up_clamps_to_shorter_line() {
    assert_eq!(cursor_up_target("hi\nhello world", 12), Some(2));
}

#[test]
fn down_clamps_to_shorter_line() {
    assert_eq!(cursor_down_target("hello world\nhi", 9), Some(14));
}

#[test]
fn up_on_first_line_and_down_on_last_line_leave_the_buffer() {
    assert_eq!(cursor_up_target("hello\nworld", 3), None);
    assert_eq!(cursor_down_target("current", 3), None);
    assert_eq!(cursor_down_target("a\nb", 3), None);
}

#[test]
fn vertical_moves_count_columns_in_chars() {
    // Line 1 starts with a 4-byte emoji; column 1 there is byte offset 2 + 4.
    assert_eq!(cursor_down_target("ab\n\u{1F600}cd", 1), Some(7));
    assert_eq!(cursor_up_target("ab\n\u{1F600}cd", 7), Some(1));
}

#[test]
fn home_end_line_aware() {
    assert_eq!(current_line_start("hello\nworld", 8), 6);
    assert_eq!(current_line_end("hello\nworld", 8), 11);
}
