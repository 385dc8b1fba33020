use edcore::buffer::Buffer;
use edcore::{next, prev};

fn buf(lines: &[&str]) -> Buffer {
    Buffer::from_lines(
        "test".to_string(),
        lines.iter().map(|s| s.to_string()).collect(),
    )
}

#[test]
fn sticky_column_down_and_back_up() {
    // Moving down from column 10 on a 20-character line onto a 3-character
    // line clamps to column 3; moving back up restores column 10 with no
    // horizontal move in between.
    let mut b = buf(&["aaaaaaaaaaaaaaaaaaaa", "bbb"]);
    for _ in 0..10 {
        b.cursor_right(false);
    }
    assert_eq!((b.cursor_x, b.cursor_y), (10, 0));
    assert_eq!(b.max_cursor_x, 10);
    b.cursor_down(1, false);
    assert_eq!((b.cursor_x, b.cursor_y), (3, 1));
    b.cursor_up(1, false);
    assert_eq!((b.cursor_x, b.cursor_y), (10, 0));
}

#[test]
fn vertical_moves_clamp_at_document_edges() {
    let mut b = buf(&["one", "two"]);
    b.cursor_up(5, false);
    assert_eq!(b.cursor_y, 0);
    b.cursor_down(100, false);
    assert_eq!(b.cursor_y, 1);
}

#[test]
fn selection_order_anchor_after_cursor() {
    let mut b = buf(&["abc", "defg"]);
    b.sel_x = 2;
    b.sel_y = 1;
    b.cursor_x = 1;
    b.cursor_y = 0;
    assert_eq!(b.get_selection(), (1, 0, 2, 1));
}

#[test]
fn selection_order_anchor_before_cursor() {
    let mut b = buf(&["abc", "defg"]);
    b.sel_x = 0;
    b.sel_y = 0;
    b.cursor_x = 3;
    b.cursor_y = 1;
    assert_eq!(b.get_selection(), (0, 0, 3, 1));
}

#[test]
fn selection_order_same_row_ties_on_column() {
    let mut b = buf(&["abcdef"]);
    b.sel_x = 4;
    b.sel_y = 0;
    b.cursor_x = 1;
    b.cursor_y = 0;
    assert_eq!(b.get_selection(), (1, 0, 4, 0));
    b.sel_x = 1;
    b.cursor_x = 4;
    assert_eq!(b.get_selection(), (1, 0, 4, 0));
}

#[test]
fn char_navigation_wraps_lines() {
    let b = buf(&["ab", "c"]);
    assert_eq!(b.next_char(1, 0), (2, 0));
    assert_eq!(b.next_char(2, 0), (0, 1));
    assert_eq!(b.next_char(1, 1), (1, 1));
    assert_eq!(b.prev_char(0, 1), (2, 0));
    assert_eq!(b.prev_char(1, 0), (0, 0));
    assert_eq!(b.prev_char(0, 0), (0, 0));
}

#[test]
fn cursor_left_right_update_remembered_column() {
    let mut b = buf(&["ab", "c"]);
    b.cursor_right(false);
    assert_eq!((b.cursor_x, b.cursor_y, b.max_cursor_x), (1, 0, 1));
    b.cursor_right(false);
    b.cursor_right(false);
    assert_eq!((b.cursor_x, b.cursor_y), (0, 1));
    b.cursor_left(false);
    assert_eq!((b.cursor_x, b.cursor_y), (2, 0));
}

#[test]
fn extend_flag_keeps_anchor() {
    let mut b = buf(&["abc", "def"]);
    b.cursor_right(false);
    assert_eq!((b.sel_x, b.sel_y), (1, 0));
    b.cursor_down(1, true);
    assert_eq!((b.sel_x, b.sel_y), (1, 0));
    assert_eq!((b.cursor_x, b.cursor_y), (1, 1));
}

#[test]
fn word_navigation_on_ascii_text() {
    let b = buf(&["foo bar", "baz"]);
    assert_eq!(b.next_word(0, 0), (3, 0));
    assert_eq!(b.next_word(3, 0), (4, 0));
    assert_eq!(b.next_word(4, 0), (7, 0));
    assert_eq!(b.next_word(7, 0), (0, 1));
    assert_eq!(b.next_word(3, 1), (3, 1));
    assert_eq!(b.prev_word(7, 0), (4, 0));
    assert_eq!(b.prev_word(4, 0), (3, 0));
    assert_eq!(b.prev_word(0, 1), (7, 0));
    assert_eq!(b.prev_word(0, 0), (0, 0));
}

#[test]
fn word_navigation_counts_clusters_not_bytes() {
    // "héllo" is six bytes but five grapheme clusters; word bounds must be
    // grapheme columns, so the word ends at column 5, not 6.
    let b = buf(&["h\u{e9}llo world"]);
    assert_eq!(b.next_word(0, 0), (5, 0));
    assert_eq!(b.next_word(5, 0), (6, 0));
    assert_eq!(b.next_word(6, 0), (11, 0));
    assert_eq!(b.prev_word(11, 0), (6, 0));
    assert_eq!(b.prev_word(6, 0), (5, 0));
    assert_eq!(b.prev_word(5, 0), (0, 0));
}

#[test]
fn word_navigation_with_emoji_cluster() {
    // the two-codepoint emoji cluster occupies one column
    let b = buf(&["\u{1F44D}\u{1F3FD} ok"]);
    assert_eq!(b.line_len(0), 4);
    assert_eq!(b.next_word(0, 0), (1, 0));
    assert_eq!(b.prev_word(4, 0), (2, 0));
}

#[test]
fn backspace_at_document_start_is_noop() {
    let mut b = buf(&["abc"]);
    b.remove_char();
    assert_eq!(b.line_string(0), "abc");
    assert!(b.undo_stack.is_empty());
    assert!(!b.is_dirty);
    b.remove_selection();
    assert_eq!(b.line_string(0), "abc");
    assert!(b.undo_stack.is_empty());
    assert!(!b.is_dirty);
}

#[test]
fn remove_selection_deletes_span_and_collapses() {
    let mut b = buf(&["hello world"]);
    b.sel_x = 5;
    b.sel_y = 0;
    b.cursor_x = 11;
    b.cursor_y = 0;
    b.remove_selection();
    assert_eq!(b.line_string(0), "hello");
    assert_eq!((b.cursor_x, b.cursor_y), (5, 0));
    assert_eq!((b.sel_x, b.sel_y), (5, 0));
}

#[test]
fn remove_selection_empty_acts_as_backspace() {
    let mut b = buf(&["ab", "cd"]);
    b.cursor_x = 0;
    b.cursor_y = 1;
    b.sel_x = 0;
    b.sel_y = 1;
    b.remove_selection();
    assert_eq!(b.line_string(0), "abcd");
    assert_eq!(b.len(), 1);
    assert_eq!((b.cursor_x, b.cursor_y), (2, 0));
}

#[test]
fn remove_char_within_line() {
    let mut b = buf(&["abc"]);
    b.cursor_x = 2;
    b.cursor_y = 0;
    b.remove_char();
    assert_eq!(b.line_string(0), "ac");
    assert_eq!((b.cursor_x, b.cursor_y), (1, 0));
}

#[test]
fn action_insert_text_replaces_selection() {
    let mut b = buf(&["hello world"]);
    b.sel_x = 0;
    b.sel_y = 0;
    b.cursor_x = 5;
    b.cursor_y = 0;
    b.action_insert_text("goodbye".to_string());
    assert_eq!(b.line_string(0), "goodbye world");
    assert_eq!((b.cursor_x, b.cursor_y), (7, 0));
    b.undo();
    assert_eq!(b.line_string(0), "hello world");
}

#[test]
fn select_all_spans_document() {
    let mut b = buf(&["abc", "defg"]);
    b.select_all();
    assert_eq!((b.sel_x, b.sel_y), (0, 0));
    assert_eq!((b.cursor_x, b.cursor_y), (4, 1));
    assert_eq!(b.get_selection(), (0, 0, 4, 1));
}

#[test]
fn select_line_covers_whole_line() {
    let mut b = buf(&["abc", "defg"]);
    b.select_line(1);
    assert_eq!((b.sel_x, b.sel_y), (0, 1));
    assert_eq!((b.cursor_x, b.cursor_y), (4, 1));
    b.select_line(99);
    assert_eq!(b.cursor_y, 1);
}

#[test]
fn selection_text_joins_lines() {
    let mut b = buf(&["abc", "def", "ghi"]);
    b.sel_x = 1;
    b.sel_y = 0;
    b.cursor_x = 2;
    b.cursor_y = 2;
    assert_eq!(b.selection_text(), "bc\ndef\ngh");
    assert_eq!(b.line_string(0), "abc");
}

#[test]
fn find_line_with_prefix_scans_forward() {
    let b = buf(&["alpha", "beta", "bees", "gamma"]);
    assert_eq!(b.find_line_with_prefix(0, "be"), 1);
    assert_eq!(b.find_line_with_prefix(2, "be"), 2);
    assert_eq!(b.find_line_with_prefix(3, "be"), 3);
    assert_eq!(b.find_line_with_prefix(0, "zz"), 0);
    assert_eq!(b.find_line_with_prefix(0, ""), 0);
}

#[test]
fn index_cycling_wraps_both_ways() {
    assert_eq!(next(0, 3), 1);
    assert_eq!(next(2, 3), 0);
    assert_eq!(prev(0, 3), 2);
    assert_eq!(prev(2, 3), 1);
    assert_eq!(next(0, 1), 0);
    assert_eq!(prev(0, 1), 0);
    assert_eq!(next(5, 3), 0);
    assert_eq!(prev(5, 3), 1);
}
