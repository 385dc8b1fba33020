//! Mapping between screen coordinates and document coordinates.
//!
//! The forward direction places a document cell on the screen; the inverse
//! finds the cell under a pixel, either by a cumulative-width scan over the
//! glyph widths the rendering backend reports (`locate_column`), or by the
//! hover cell recorded cell-by-cell during the draw pass (`update_hover`,
//! whose answer lags the pointer by one frame).

use crate::buffer::{clamp_col, clamp_line, Buffer};
use crate::viewport::{Rect, Viewport, MAX_DISPLAY_LINES, MAX_LINE_HEIGHT, PADDING};
use vstd::prelude::*;

verus! {

/// Whether the cell at column `j` of line `i` lies inside the selection
/// span from `(sx1, sy1)` to `(sx2, sy2)`: on a line strictly inside the
/// span any column is selected, on the first line only from `sx1`, on the
/// last line only before `sx2`.
pub open spec fn cell_in_selection_spec(
    i: int,
    j: int,
    sx1: int,
    sy1: int,
    sx2: int,
    sy2: int,
) -> bool {
    sy1 <= i <= sy2 && (j >= sx1 || i > sy1) && (j < sx2 || i < sy2)
}

/// Decides whether the cell at `(j, i)` is inside the selection span; used
/// to paint the selection highlight behind each cell.
pub fn cell_in_selection(
    i: usize,
    j: usize,
    sx1: usize,
    sy1: usize,
    sx2: usize,
    sy2: usize,
) -> (r: bool)
    ensures
        r == cell_in_selection_spec(
            i as int,
            j as int,
            sx1 as int,
            sy1 as int,
            sx2 as int,
            sy2 as int,
        ),
{
    i >= sy1 && i <= sy2 && ((j >= sx1 || i > sy1) && (j < sx2 || i < sy2))
}

/// The column a horizontal pixel offset falls on, scanning glyph widths
/// left to right and snapping to the nearer cell edge.
pub open spec fn locate_spec(ws: Seq<u32>, px: int) -> int
    decreases ws.len(),
{
    if ws.len() == 0 {
        0
    } else if px < ws[0] {
        if 2 * px < ws[0] {
            0
        } else {
            1
        }
    } else {
        1 + locate_spec(ws.skip(1), px - ws[0])
    }
}

/// The located column never passes the end of the row.
pub proof fn lemma_locate_spec_in_range(ws: Seq<u32>, px: int)
    requires
        px >= 0,
    ensures
        0 <= locate_spec(ws, px) <= ws.len(),
    decreases ws.len(),
{
    if ws.len() > 0 && px >= ws[0] {
        lemma_locate_spec_in_range(ws.skip(1), px - ws[0]);
    }
}

/// Finds the column a pixel offset falls on within one row, given the
/// pixel width of each grapheme cell as the rendering backend measures
/// them: cumulative widths are scanned until they pass the pixel, which
/// then snaps to the nearer cell edge.
#[verifier::loop_isolation(false)]
pub fn locate_column(widths: &Vec<u32>, px: u32) -> (r: usize)
    ensures
        r as int == locate_spec(widths@, px as int),
        r <= widths@.len(),
{
    let ghost ws = widths@;
    proof {
        lemma_locate_spec_in_range(ws, px as int);
        assert(ws.skip(0) =~= ws);
    }
    let mut i: usize = 0;
    let mut rest: u32 = px;
    while i < widths.len()
        invariant
            i <= ws.len(),
            rest <= px,
            locate_spec(ws, px as int) == i + locate_spec(ws.skip(i as int), rest as int),
        decreases ws.len() - i,
    {
        let w = widths[i];
        proof {
            assert(ws.skip(i as int)[0] == ws[i as int]);
        }
        if rest < w {
            if 2 * (rest as u64) < w as u64 {
                return i;
            }
            return i + 1;
        }
        proof {
            assert(ws.skip(i as int).skip(1) =~= ws.skip(i + 1));
        }
        rest = rest - w;
        i += 1;
    }
    proof {
        assert(ws.skip(ws.len() as int) =~= Seq::<u32>::empty());
    }
    i
}

/// The pixel height of a pane's title bar.
pub open spec fn bar_height_spec(line_height: int) -> int {
    line_height + 2 * PADDING
}

impl Viewport {
    /// The document line under a vertical pixel position, taking the
    /// current (possibly mid-animation) scroll offset into account and
    /// clamped into `[0, len)`.
    pub fn screen_to_line(&self, py: i64, len: usize) -> (r: usize)
        requires
            self.wf(),
            1 <= len <= 0x10000000,
            -0x10000000 <= py <= 0x10000000,
            -0x10000000 <= self.rect.y <= 0x10000000,
        ensures
            r as int == {
                let rel = py - self.rect.y - PADDING - bar_height_spec(self.line_height as int)
                    + self.scroll_offset;
                let row = if rel >= 0 {
                    rel / (self.line_height as int)
                } else {
                    0
                };
                if row < len {
                    row
                } else {
                    len - 1
                }
            },
            r < len,
    {
        let bar: i64 = self.line_height as i64 + 2 * (PADDING as i64);
        let rel: i64 = py - self.rect.y as i64 - PADDING as i64 - bar + self.scroll_offset as i64;
        let row: i64 = if rel >= 0 {
            rel / self.line_height as i64
        } else {
            0
        };
        if row < len as i64 {
            row as usize
        } else {
            len - 1
        }
    }

    /// The screen position of the cell at document position `(x, y)`: the
    /// pane origin plus the text padding, the column times the glyph width,
    /// and the row times the line height less the animated scroll offset.
    /// This is exactly the placement the draw pass uses, so the caret lands
    /// on the glyph it belongs to.
    pub fn document_to_screen(&self, x: usize, y: usize, char_width: usize) -> (r: (i64, i64))
        requires
            self.wf(),
            x <= 0x10000000,
            y <= MAX_DISPLAY_LINES,
            1 <= char_width <= MAX_LINE_HEIGHT,
            -0x10000000 <= self.rect.x <= 0x10000000,
            -0x10000000 <= self.rect.y <= 0x10000000,
        ensures
            r.0 as int == self.rect.x + 2 * PADDING + x * char_width,
            r.1 as int == self.rect.y + 2 * PADDING + bar_height_spec(self.line_height as int) + y
                * self.line_height - self.scroll_offset,
    {
        proof {
            assert(x * char_width <= 0x10000000 * MAX_LINE_HEIGHT) by (nonlinear_arith)
                requires
                    x <= 0x10000000,
                    char_width <= MAX_LINE_HEIGHT,
            ;
            assert(y * self.line_height <= MAX_DISPLAY_LINES * MAX_LINE_HEIGHT)
                by (nonlinear_arith)
                requires
                    y <= MAX_DISPLAY_LINES,
                    self.line_height <= MAX_LINE_HEIGHT,
            ;
        }
        let bar: i64 = self.line_height as i64 + 2 * (PADDING as i64);
        let px: i64 = self.rect.x as i64 + 2 * (PADDING as i64) + (x as i64) * (char_width as i64);
        let py: i64 = self.rect.y as i64 + 2 * (PADDING as i64) + bar + (y as i64)
            * (self.line_height as i64) - self.scroll_offset as i64;
        (px, py)
    }

    /// Records the hovered cell while the draw pass walks the cells: if the
    /// pointer's vertical position lies within this cell's row, the row is
    /// remembered, and if its horizontal position also lies within the
    /// cell, the column is remembered too. The answer read back later lags
    /// the pointer by one frame, which callers tolerate.
    pub fn update_hover(
        &mut self,
        mouse_x: i64,
        mouse_y: i64,
        cell_x: i64,
        cell_y: i64,
        char_width: i64,
        font_size: i64,
        j: usize,
        i: usize,
    )
        requires
            -0x40000000 <= mouse_x <= 0x40000000,
            -0x40000000 <= mouse_y <= 0x40000000,
            -0x40000000 <= cell_x <= 0x40000000,
            -0x40000000 <= cell_y <= 0x40000000,
            0 <= char_width <= 0x10000,
            0 <= font_size <= 0x10000,
        ensures
            ({
                let in_row = cell_y <= mouse_y < cell_y + font_size;
                let in_col = cell_x <= mouse_x < cell_x + char_width;
                &&& final(self).cursor_y == if in_row {
                    i
                } else {
                    old(self).cursor_y
                }
                &&& final(self).cursor_x == if in_row && in_col {
                    j
                } else {
                    old(self).cursor_x
                }
            }),
            final(self).scroll_idx == old(self).scroll_idx,
            final(self).scroll_offset == old(self).scroll_offset,
            final(self).line_height == old(self).line_height,
            final(self).chars_per_line == old(self).chars_per_line,
            final(self).display_line_count == old(self).display_line_count,
            final(self).rect == old(self).rect,
            final(self).buffer_id == old(self).buffer_id,
    {
        if cell_y + font_size > mouse_y && cell_y <= mouse_y {
            self.cursor_y = i;
            if cell_x + char_width > mouse_x && cell_x <= mouse_x {
                self.cursor_x = j;
            }
        }
    }

    /// The cell under a pixel position in a monospace pane: each axis
    /// subtracts the fixed margins and half a cell so the pixel snaps to
    /// the nearer cell edge, then divides by the cell size. Positions above
    /// or left of the text area map to cell zero.
    pub fn get_focused_cell(&self, px: i64, py: i64, char_width: usize, font_size: usize) -> (r: (
        usize,
        usize,
    ))
        requires
            self.wf(),
            1 <= char_width <= MAX_LINE_HEIGHT,
            1 <= font_size <= MAX_LINE_HEIGHT,
            -0x10000000 <= px <= 0x10000000,
            -0x10000000 <= py <= 0x10000000,
        ensures
            r.0 as int == {
                let rel = px - 2 * PADDING - (char_width as int) / 2;
                if rel >= 0 {
                    rel / (char_width as int)
                } else {
                    0
                }
            },
            r.1 as int == {
                let bar = bar_height_spec(font_size as int);
                let rel = py - PADDING - bar - (font_size as int) / 2;
                if rel >= 0 {
                    rel / (font_size as int)
                } else {
                    0
                }
            },
    {
        let relx: i64 = px - 2 * (PADDING as i64) - (char_width / 2) as i64;
        let x_cell: usize = if relx >= 0 {
            (relx / char_width as i64) as usize
        } else {
            0
        };
        let bar: i64 = font_size as i64 + 2 * (PADDING as i64);
        let rely: i64 = py - PADDING as i64 - bar - (font_size / 2) as i64;
        let y_cell: usize = if rely >= 0 {
            (rely / font_size as i64) as usize
        } else {
            0
        };
        (x_cell, y_cell)
    }

    /// Moves the buffer's cursor to the cell last hovered during the draw
    /// pass, clamped into the document, and collapses or extends the
    /// selection as asked.
    pub fn set_selection_from_screen(&self, buffer: &mut Buffer, extend: bool)
        requires
            old(buffer).wf(),
        ensures
            final(buffer).wf(),
            final(buffer).cursor_y as int == clamp_line(old(buffer).doc(), self.cursor_y as int),
            final(buffer).cursor_x as int == clamp_col(
                old(buffer).doc(),
                final(buffer).cursor_y as int,
                self.cursor_x as int,
            ),
            !extend ==> final(buffer).sel_x == final(buffer).cursor_x && final(buffer).sel_y
                == final(buffer).cursor_y,
            extend ==> final(buffer).sel_x == old(buffer).sel_x && final(buffer).sel_y == old(
                buffer,
            ).sel_y,
            final(buffer).doc() == old(buffer).doc(),
            final(buffer).undo_stack == old(buffer).undo_stack,
            final(buffer).redo_stack == old(buffer).redo_stack,
            final(buffer).is_dirty == old(buffer).is_dirty,
            final(buffer).name == old(buffer).name,
            old(buffer).history_wf() ==> final(buffer).history_wf(),
    {
        let line_count = buffer.len();
        let y_target: usize = if self.cursor_y < line_count {
            self.cursor_y
        } else {
            line_count - 1
        };
        let char_count = buffer.line_len(y_target);
        let x_target: usize = if self.cursor_x <= char_count {
            self.cursor_x
        } else {
            char_count
        };
        buffer.cursor_x = x_target;
        buffer.cursor_y = y_target;
        buffer.set_selection(extend);
    }
}

/// The on-screen part of `r` inside `region`, clipped edge by edge: the
/// clipped origin in absolute coordinates and the clipped extent, which is
/// zero where the rectangle lies outside the region.
pub fn clip_to_region(region: Rect, r: Rect) -> (c: (i32, i32, u32, u32))
    requires
        -0x10000000 <= region.x <= 0x10000000,
        -0x10000000 <= region.y <= 0x10000000,
        0 <= region.w <= 0x10000000,
        0 <= region.h <= 0x10000000,
        -0x10000000 <= r.x <= 0x10000000,
        -0x10000000 <= r.y <= 0x10000000,
        0 <= r.w <= 0x10000000,
        0 <= r.h <= 0x10000000,
    ensures
        c.0 == if region.x + r.x < region.x {
            region.x as int
        } else if region.x + r.x > region.x + region.w {
            region.x + region.w
        } else {
            region.x + r.x
        },
        c.1 == if region.y + r.y < region.y {
            region.y as int
        } else if region.y + r.y > region.y + region.h {
            region.y + region.h
        } else {
            region.y + r.y
        },
        c.2 == {
            let wcap = if region.w - r.x < r.w + (if r.x < 0 {
                r.x as int
            } else {
                0
            }) {
                region.w - r.x
            } else {
                r.w + (if r.x < 0 {
                    r.x as int
                } else {
                    0
                })
            };
            if wcap > 0 {
                wcap
            } else {
                0
            }
        },
        c.3 == {
            let hcap = if region.h - r.y < r.h + (if r.y < 0 {
                r.y as int
            } else {
                0
            }) {
                region.h - r.y
            } else {
                r.h + (if r.y < 0 {
                    r.y as int
                } else {
                    0
                })
            };
            if hcap > 0 {
                hcap
            } else {
                0
            }
        },
{
    let ax: i32 = region.x + r.x;
    let x: i32 = if ax < region.x {
        region.x
    } else if ax > region.x + region.w {
        region.x + region.w
    } else {
        ax
    };
    let ay: i32 = region.y + r.y;
    let y: i32 = if ay < region.y {
        region.y
    } else if ay > region.y + region.h {
        region.y + region.h
    } else {
        ay
    };
    let wslack: i32 = if r.x < 0 {
        r.w + r.x
    } else {
        r.w
    };
    let wcap: i32 = if region.w - r.x < wslack {
        region.w - r.x
    } else {
        wslack
    };
    let w: u32 = if wcap > 0 {
        wcap as u32
    } else {
        0
    };
    let hslack: i32 = if r.y < 0 {
        r.h + r.y
    } else {
        r.h
    };
    let hcap: i32 = if region.h - r.y < hslack {
        region.h - r.y
    } else {
        hslack
    };
    let h: u32 = if hcap > 0 {
        hcap as u32
    } else {
        0
    };
    (x, y, w, h)
}

} // verus!
