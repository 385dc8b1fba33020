use edcore::buffer::Buffer;
use edcore::mapper::{cell_in_selection, clip_to_region, locate_column};
use edcore::viewport::{PaneType, Rect, Viewport};

fn buf_lines(n: usize, text: &str) -> Buffer {
    let mut lines = Vec::new();
    for _ in 0..n {
        lines.push(text.to_string());
    }
    Buffer::from_lines("test".to_string(), lines)
}

fn pane_over(b: &Buffer) -> Viewport {
    let mut v = Viewport::new(PaneType::Buffer, 0, 16);
    v.rect = Rect::new(0, 0, 300, 64);
    v.update_wrap_width(20, 8);
    v.update_display_lines(b);
    v
}

#[test]
fn viewport_new_defaults() {
    let v = Viewport::new(PaneType::Buffer, 7, 16);
    assert_eq!(v.buffer_id, 7);
    assert_eq!(v.scroll_idx, 0);
    assert_eq!(v.scroll_offset, 0);
    assert_eq!(v.chars_per_line, 1);
    assert_eq!(v.display_line_count, 0);
}

#[test]
fn scroll_converges_without_overshoot() {
    // Ticking toward a fixed target reaches it exactly, in no more ticks
    // than the pixel distance, and never passes it on the way.
    let b = buf_lines(100, "text");
    let mut v = pane_over(&b);
    v.scroll(10);
    assert_eq!(v.scroll_idx, 10);
    let target = 10 * 16;
    let mut ticks: usize = 0;
    let mut prev = v.scroll_offset;
    while v.scroll_offset != target {
        v.scroll_tick();
        assert!(v.scroll_offset > prev);
        assert!(v.scroll_offset <= target);
        prev = v.scroll_offset;
        ticks += 1;
        assert!(ticks <= target);
    }
    let settled = v.scroll_offset;
    v.scroll_tick();
    assert_eq!(v.scroll_offset, settled);
}

#[test]
fn scroll_converges_downward_too() {
    let b = buf_lines(100, "text");
    let mut v = pane_over(&b);
    v.scroll(20);
    while v.scroll_offset != 20 * 16 {
        v.scroll_tick();
    }
    v.scroll(-15);
    assert_eq!(v.scroll_idx, 5);
    let target = 5 * 16;
    let mut prev = v.scroll_offset;
    while v.scroll_offset != target {
        v.scroll_tick();
        assert!(v.scroll_offset < prev);
        assert!(v.scroll_offset >= target);
        prev = v.scroll_offset;
    }
}

#[test]
fn scroll_clamps_to_range() {
    let b = buf_lines(100, "text");
    let mut v = pane_over(&b);
    v.scroll(-5);
    assert_eq!(v.scroll_idx, 0);
    v.scroll(1000000);
    // 100 display lines plus the bottom margin, less the two rows the
    // 64-pixel pane shows below its 26-pixel title bar at 16 pixels per
    // line.
    assert_eq!(v.scroll_idx, 100 + 5 - 2);
}

#[test]
fn lines_on_screen_stays_in_document() {
    let b = buf_lines(10, "text");
    let mut v = pane_over(&b);

    v.scroll_idx = 0;
    let (first, last) = v.get_lines_on_screen(&b);
    assert_eq!(first, 0);
    assert!(first <= last && last <= 10);

    v.scroll_idx = 10;
    let (first, last) = v.get_lines_on_screen(&b);
    assert!(first <= last && last <= 10);

    v.scroll_idx = 5;
    v.scroll_offset = 3 * 16 + 7;
    let (first, last) = v.get_lines_on_screen(&b);
    assert!(first <= last && last <= 10);
}

#[test]
fn lines_on_screen_covers_a_screenful_each_side() {
    let b = buf_lines(100, "text");
    let mut v = pane_over(&b);
    v.scroll_idx = 50;
    let (first, last) = v.get_lines_on_screen(&b);
    // 64 pixels at 16 per line is four rows on each side of the target.
    assert_eq!(first, 46);
    assert_eq!(last, 54);
}

#[test]
fn wrap_width_from_pane_and_glyph_size() {
    let b = buf_lines(1, "text");
    let mut v = pane_over(&b);
    v.rect = Rect::new(0, 0, 100, 64);
    v.update_wrap_width(20, 8);
    assert_eq!(v.chars_per_line, 10);
    v.update_wrap_width(200, 8);
    assert_eq!(v.chars_per_line, 1);
}

#[test]
fn display_lines_count_wrapped_rows() {
    let b = Buffer::from_lines(
        "test".to_string(),
        vec!["aaaaaaaaaa".to_string(), "bb".to_string(), String::new()],
    );
    let mut v = Viewport::new(PaneType::Buffer, 0, 16);
    v.rect = Rect::new(0, 0, 300, 64);
    v.update_wrap_width(268, 8);
    assert_eq!(v.chars_per_line, 4);
    v.update_display_lines(&b);
    // 10 clusters at width 4 take 3 rows, 2 clusters take 1, empty takes 1.
    assert_eq!(v.display_line_count, 3 + 1 + 1);
}

#[test]
fn locate_column_snaps_to_nearer_edge() {
    let widths: Vec<u32> = vec![10, 10, 10];
    assert_eq!(locate_column(&widths, 0), 0);
    assert_eq!(locate_column(&widths, 4), 0);
    assert_eq!(locate_column(&widths, 5), 1);
    assert_eq!(locate_column(&widths, 14), 1);
    assert_eq!(locate_column(&widths, 15), 2);
    assert_eq!(locate_column(&widths, 29), 3);
    assert_eq!(locate_column(&widths, 35), 3);
    let empty: Vec<u32> = Vec::new();
    assert_eq!(locate_column(&empty, 12), 0);
}

#[test]
fn document_to_screen_and_back() {
    let b = buf_lines(10, "abcdefgh");
    let mut v = pane_over(&b);
    v.scroll_offset = 0;
    let (px, py) = v.document_to_screen(2, 3, 8);
    assert_eq!(px, 0 + 10 + 2 * 8);
    // vertical: padding twice, the title bar, then three rows down
    assert_eq!(py, 0 + 10 + 26 + 3 * 16);
    assert_eq!(v.screen_to_line(py, 10), 3);
}

#[test]
fn screen_to_line_clamps_into_document() {
    let b = buf_lines(5, "x");
    let v = pane_over(&b);
    assert_eq!(v.screen_to_line(-500, 5), 0);
    assert_eq!(v.screen_to_line(100000, 5), 4);
}

#[test]
fn hover_cell_recorded_during_draw_pass() {
    let b = buf_lines(5, "abcd");
    let mut v = pane_over(&b);
    // the pointer sits inside the cell at column 2, row 1
    v.update_hover(21, 40, 16, 36, 8, 16, 2, 1);
    assert_eq!((v.cursor_x, v.cursor_y), (2, 1));
    // a cell on another row leaves the hover untouched
    v.update_hover(21, 40, 16, 60, 8, 16, 3, 2);
    assert_eq!((v.cursor_x, v.cursor_y), (2, 1));
    // same row but another column updates only the row
    v.update_hover(21, 40, 40, 36, 8, 16, 3, 1);
    assert_eq!((v.cursor_x, v.cursor_y), (2, 1));
}

#[test]
fn hover_maps_to_buffer_selection() {
    let mut b = buf_lines(3, "abcd");
    let mut v = pane_over(&b);
    v.cursor_x = 9;
    v.cursor_y = 7;
    v.set_selection_from_screen(&mut b, false);
    assert_eq!((b.cursor_x, b.cursor_y), (4, 2));
    assert_eq!((b.sel_x, b.sel_y), (4, 2));
    v.cursor_x = 1;
    v.cursor_y = 0;
    v.set_selection_from_screen(&mut b, true);
    assert_eq!((b.cursor_x, b.cursor_y), (1, 0));
    assert_eq!((b.sel_x, b.sel_y), (4, 2));
}

#[test]
fn focused_cell_from_monospace_geometry() {
    let b = buf_lines(5, "abcd");
    let v = pane_over(&b);
    // cells are 8 by 16 pixels behind a 10-pixel margin and a 26-pixel bar
    assert_eq!(v.get_focused_cell(10, 41, 8, 16), (0, 0));
    assert_eq!(v.get_focused_cell(10 + 8 * 3 + 4, 41 + 16 * 2 + 8, 8, 16), (3, 2));
    assert_eq!(v.get_focused_cell(-50, -50, 8, 16), (0, 0));
}

#[test]
fn selection_highlight_covers_span_cells() {
    // span from (1,0) to (2,1): first line from column 1, middle of the
    // last line up to column 2
    assert!(!cell_in_selection(0, 0, 1, 0, 2, 1));
    assert!(cell_in_selection(0, 1, 1, 0, 2, 1));
    assert!(cell_in_selection(0, 5, 1, 0, 2, 1));
    assert!(cell_in_selection(1, 0, 1, 0, 2, 1));
    assert!(cell_in_selection(1, 1, 1, 0, 2, 1));
    assert!(!cell_in_selection(1, 2, 1, 0, 2, 1));
    assert!(!cell_in_selection(2, 0, 1, 0, 2, 1));
}

#[test]
fn clip_keeps_inner_rect_and_drops_outside() {
    let region = Rect::new(10, 10, 100, 100);
    let inner = Rect::new(5, 5, 20, 20);
    assert_eq!(clip_to_region(region, inner), (15, 15, 20, 20));
    let past_right = Rect::new(95, 0, 20, 20);
    let (cx, _, cw, _) = clip_to_region(region, past_right);
    assert_eq!(cx, 105);
    assert_eq!(cw, 5);
    let outside = Rect::new(200, 200, 20, 20);
    let (_, _, cw, ch) = clip_to_region(region, outside);
    assert_eq!((cw, ch), (0, 0));
    let negative = Rect::new(-5, -5, 20, 20);
    let (cx, cy, cw, ch) = clip_to_region(region, negative);
    assert_eq!((cx, cy), (10, 10));
    assert_eq!((cw, ch), (15, 15));
}
