use edcore::buffer::Buffer;

fn lines_of(b: &Buffer) -> Vec<String> {
    let mut out = Vec::new();
    let mut i = 0;
    while i < b.len() {
        out.push(b.line_string(i));
        i += 1;
    }
    out
}

fn buf(lines: &[&str]) -> Buffer {
    Buffer::from_lines(
        "test".to_string(),
        lines.iter().map(|s| s.to_string()).collect(),
    )
}

#[test]
fn new_buffer_has_one_empty_line() {
    let b = Buffer::new();
    assert_eq!(b.len(), 1);
    assert_eq!(b.line_len(0), 0);
    assert_eq!(b.line_string(0), "");
    assert!(!b.is_dirty);
    assert!(!b.is_empty());
}

#[test]
fn from_lines_empty_file_still_one_line() {
    let b = Buffer::from_lines("x".to_string(), Vec::new());
    assert_eq!(b.len(), 1);
    assert_eq!(b.line_string(0), "");
}

#[test]
fn insert_single_line_text() {
    let mut b = Buffer::new();
    let end = b.insert_text(0, 0, "hello".to_string());
    assert_eq!(end, (5, 0));
    assert_eq!(lines_of(&b), vec!["hello"]);
    assert!(b.is_dirty);
}

#[test]
fn insert_multi_line_text() {
    let mut b = Buffer::new();
    let end = b.insert_text(0, 0, "ab\ncd".to_string());
    assert_eq!(end, (2, 1));
    assert_eq!(lines_of(&b), vec!["ab", "cd"]);
}

#[test]
fn insert_in_middle_of_line() {
    let mut b = buf(&["hello"]);
    let end = b.insert_text(2, 0, "XY".to_string());
    assert_eq!(end, (4, 0));
    assert_eq!(lines_of(&b), vec!["heXYllo"]);
}

#[test]
fn insert_splits_line_on_newline() {
    let mut b = buf(&["hello"]);
    let end = b.insert_text(2, 0, "A\nB".to_string());
    assert_eq!(end, (1, 1));
    assert_eq!(lines_of(&b), vec!["heA", "Bllo"]);
}

#[test]
fn delete_within_one_line() {
    let mut b = buf(&["hello"]);
    let removed = b.delete_text(1, 0, 3, 0);
    assert_eq!(removed, "el");
    assert_eq!(lines_of(&b), vec!["hlo"]);
    assert!(b.is_dirty);
}

#[test]
fn delete_across_lines_joins_fragments() {
    let mut b = buf(&["abc", "def", "ghi"]);
    let removed = b.delete_text(1, 0, 2, 2);
    assert_eq!(removed, "bc\ndef\ngh");
    assert_eq!(lines_of(&b), vec!["ai"]);
}

#[test]
fn do_insert_and_do_delete_are_raw() {
    let mut b = buf(&["abc"]);
    let end = b.do_insert(1, 0, "Z".to_string());
    assert_eq!(end, (2, 0));
    assert_eq!(lines_of(&b), vec!["aZbc"]);
    assert!(!b.is_dirty);
    let removed = b.do_delete(1, 0, 2, 0);
    assert_eq!(removed, "Z");
    assert_eq!(lines_of(&b), vec!["abc"]);
    assert!(!b.is_dirty);
}

#[test]
fn replace_is_one_undoable_action() {
    let mut b = buf(&["abcd"]);
    let end = b.replace_text(1, 0, 3, 0, "ZZZ".to_string());
    assert_eq!(end, (4, 0));
    assert_eq!(lines_of(&b), vec!["aZZZd"]);
    b.undo();
    assert_eq!(lines_of(&b), vec!["abcd"]);
    b.redo();
    assert_eq!(lines_of(&b), vec!["aZZZd"]);
}

#[test]
fn undo_redo_inverse_over_edit_sequence() {
    let mut b = Buffer::new();
    b.insert_text(0, 0, "first line".to_string());
    b.insert_text(10, 0, "\nsecond".to_string());
    b.delete_text(0, 1, 3, 1);
    b.replace_text(0, 0, 5, 0, "FIRST\nAND".to_string());
    b.cursor_x = 0;
    b.cursor_y = 1;
    b.break_line();
    let edited = lines_of(&b);

    while !b.undo_stack.is_empty() {
        b.undo();
    }
    assert_eq!(lines_of(&b), vec![""]);

    while !b.redo_stack.is_empty() {
        b.redo();
    }
    assert_eq!(lines_of(&b), edited);
}

#[test]
fn undo_on_empty_stack_is_noop() {
    let mut b = buf(&["abc"]);
    b.undo();
    assert_eq!(lines_of(&b), vec!["abc"]);
}

#[test]
fn redo_on_empty_stack_is_noop() {
    let mut b = buf(&["abc"]);
    b.redo();
    assert_eq!(lines_of(&b), vec!["abc"]);
}

#[test]
fn new_edit_clears_redo_stack() {
    let mut b = Buffer::new();
    b.insert_text(0, 0, "one".to_string());
    b.undo();
    b.insert_text(0, 0, "two".to_string());
    b.redo();
    assert_eq!(lines_of(&b), vec!["two"]);
}

#[test]
fn grapheme_cluster_insert_delete_roundtrip() {
    // A thumbs-up with a skin-tone modifier is one grapheme cluster of two
    // code points; inserting and deleting it restores the line exactly.
    let mut b = buf(&["ab"]);
    let before = lines_of(&b);
    let end = b.insert_text(1, 0, "\u{1F44D}\u{1F3FD}".to_string());
    assert_eq!(end, (2, 0));
    assert_eq!(b.line_len(0), 3);
    b.delete_text(1, 0, 2, 0);
    assert_eq!(lines_of(&b), before);
    assert_eq!(b.line_len(0), 2);
}

#[test]
fn combining_mark_cluster_counts_as_one_column() {
    let mut b = Buffer::new();
    b.insert_text(0, 0, "a\u{0310}e\u{0301}o".to_string());
    assert_eq!(b.line_len(0), 3);
    let g = b.line_graphemes(0);
    assert_eq!(g.len(), 3);
    assert_eq!(g[0], "a\u{0310}");
    assert_eq!(g[1], "e\u{0301}");
    assert_eq!(g[2], "o");
}

#[test]
fn break_line_at_end_of_line() {
    // buffer = ["abc", "de"], cursor at (3,0): the line splits at the
    // cursor, an empty line appears below it, "de" moves to index 2, and
    // the cursor lands at the start of the new line.
    let mut b = buf(&["abc", "de"]);
    b.cursor_x = 3;
    b.cursor_y = 0;
    b.break_line();
    assert_eq!(lines_of(&b), vec!["abc", "", "de"]);
    assert_eq!((b.cursor_x, b.cursor_y), (0, 1));
}

#[test]
fn break_line_in_middle_of_line() {
    let mut b = buf(&["abcd"]);
    b.cursor_x = 2;
    b.cursor_y = 0;
    b.break_line();
    assert_eq!(lines_of(&b), vec!["ab", "cd"]);
    assert_eq!((b.cursor_x, b.cursor_y), (0, 1));
    b.undo();
    assert_eq!(lines_of(&b), vec!["abcd"]);
}

#[test]
fn push_and_insert_line() {
    let mut b = Buffer::new();
    b.push_line("tail".to_string());
    b.insert_line(1, "middle".to_string());
    assert_eq!(lines_of(&b), vec!["", "middle", "tail"]);
}

#[test]
fn clear_leaves_one_empty_line() {
    let mut b = buf(&["abc", "def"]);
    b.insert_text(0, 0, "x".to_string());
    b.clear();
    assert_eq!(b.len(), 1);
    assert_eq!(b.line_string(0), "");
    assert!(b.undo_stack.is_empty());
    assert_eq!((b.cursor_x, b.cursor_y), (0, 0));
}

#[test]
fn dirty_flag_set_by_edits_cleared_by_save() {
    let mut b = buf(&["abc"]);
    assert!(!b.is_dirty);
    b.insert_text(0, 0, "x".to_string());
    assert!(b.is_dirty);
    b.mark_saved();
    assert!(!b.is_dirty);
    b.undo();
    assert!(!b.is_dirty);
    b.delete_text(0, 0, 1, 0);
    assert!(b.is_dirty);
}

#[test]
fn undo_restores_multiline_delete() {
    let mut b = buf(&["one", "two", "three"]);
    b.delete_text(1, 0, 2, 2);
    assert_eq!(lines_of(&b), vec!["oree"]);
    b.undo();
    assert_eq!(lines_of(&b), vec!["one", "two", "three"]);
}
