//! Per-pane scroll and wrap state.
//!
//! Scrolling is a critically damped discrete animation: a scroll command
//! moves a target line index, and each redraw tick advances the actual pixel
//! offset toward the target by a third of the remaining distance, rounded
//! away from zero. The tick is monotone, never overshoots, and is the
//! identity once the offset equals the target; `lemma_scroll_converges`
//! proves that the animation reaches the target exactly within as many
//! ticks as the initial pixel distance.

use crate::buffer::Buffer;
use vstd::prelude::*;

verus! {

/// Pixels of padding around a pane's text area.
pub const PADDING: i32 = 5;

/// Line height, in pixels, never exceeds this.
pub const MAX_LINE_HEIGHT: usize = 1024;

/// Display-line counts saturate here. The animated scroll offset is a pixel
/// count held in a `usize`, which may be 32 bits wide; the largest offset is
/// the scroll range times the line height, so the cap times
/// `MAX_LINE_HEIGHT` must stay within 32 bits. One million display lines at
/// the largest line height is about 2^30 pixels, the most that fits.
pub const MAX_DISPLAY_LINES: usize = 1000000;

/// Extra lines of scroll room kept past the end of the document.
pub const BOTTOM_MARGIN: usize = 5;

/// A screen-space rectangle in pixels.
#[derive(Clone, Copy, PartialEq, Eq, Structural)]
pub struct Rect {
    pub x: i32,
    pub y: i32,
    pub w: i32,
    pub h: i32,
}

impl Rect {
    pub fn new(x: i32, y: i32, w: i32, h: i32) -> (r: Rect)
        ensures
            r.x == x && r.y == y && r.w == w && r.h == h,
    {
        Rect { x, y, w, h }
    }
}

/// What a pane shows.
pub enum PaneType {
    Buffer,
    FileManager,
}

/// One tick of the scroll animation: a third of the remaining distance,
/// rounded away from zero, toward the target.
pub open spec fn tick_spec(off: int, tgt: int) -> int {
    if off < tgt {
        off + (tgt - off + 2) / 3
    } else if off > tgt {
        off - (off - tgt + 2) / 3
    } else {
        off
    }
}

/// The offset after `n` ticks toward `tgt`.
pub open spec fn ticks_n(off: int, tgt: int, n: nat) -> int
    decreases n,
{
    if n == 0 {
        off
    } else {
        ticks_n(tick_spec(off, tgt), tgt, (n - 1) as nat)
    }
}

/// Scroll convergence: ticking the animation toward a fixed target reaches
/// the target exactly within as many ticks as the initial pixel distance,
/// and no intermediate tick ever passes the target.
pub proof fn lemma_scroll_converges(off: int, tgt: int, n: nat)
    requires
        n >= if off >= tgt {
            off - tgt
        } else {
            tgt - off
        },
    ensures
        ticks_n(off, tgt, n) == tgt,
    decreases n,
{
    if off == tgt {
        if n > 0 {
            lemma_scroll_converges(off, tgt, (n - 1) as nat);
        }
    } else {
        let off2 = tick_spec(off, tgt);
        if off < tgt {
            assert(off < off2 <= tgt);
        } else {
            assert(tgt <= off2 < off);
        }
        lemma_scroll_converges(off2, tgt, (n - 1) as nat);
    }
}

/// The rows a line of `len` clusters occupies at wrap width `w`: one row
/// plus one more for each full width consumed.
pub open spec fn wrapped_rows(len: int, w: int) -> int {
    1 + len / w
}

/// The display rows of a whole document at wrap width `w`.
pub open spec fn display_rows(doc: Seq<Seq<Seq<char>>>, w: int) -> int
    decreases doc.len(),
{
    if doc.len() == 0 {
        0
    } else {
        wrapped_rows(doc[0].len() as int, w) + display_rows(doc.skip(1), w)
    }
}

/// Reading one more line adds that line's rows to the count of a prefix.
pub proof fn lemma_display_rows_take_step(doc: Seq<Seq<Seq<char>>>, w: int, i: int)
    requires
        0 <= i < doc.len(),
    ensures
        display_rows(doc.take(i + 1), w) == display_rows(doc.take(i), w) + wrapped_rows(
            doc[i].len() as int,
            w,
        ),
    decreases i,
{
    if i == 0 {
        assert(doc.take(1)[0] == doc[0]);
        assert(doc.take(1).skip(1) =~~= Seq::<Seq<Seq<char>>>::empty());
        assert(doc.take(0) =~~= Seq::<Seq<Seq<char>>>::empty());
    } else {
        let t = doc.skip(1);
        lemma_display_rows_take_step(t, w, i - 1);
        assert(doc.take(i + 1).skip(1) =~~= t.take(i));
        assert(doc.take(i).skip(1) =~~= t.take(i - 1));
        assert(doc.take(i + 1)[0] == doc[0]);
        assert(doc.take(i)[0] == doc[0]);
        assert(t[i - 1] == doc[i]);
    }
}

/// A longer prefix never has fewer display rows; every line adds at least
/// one row.
pub proof fn lemma_display_rows_mono(doc: Seq<Seq<Seq<char>>>, w: int, i: int, j: int)
    requires
        w >= 1,
        0 <= i <= j <= doc.len(),
    ensures
        display_rows(doc.take(i), w) + (j - i) <= display_rows(doc.take(j), w),
    decreases j - i,
{
    if i < j {
        lemma_display_rows_take_step(doc, w, j - 1);
        lemma_display_rows_mono(doc, w, i, j - 1);
        assert(wrapped_rows(doc[j - 1].len() as int, w) >= 1);
    }
}

/// Per-pane scroll position, wrap width and display-line accounting. The
/// hovered cell (`cursor_x`, `cursor_y`) is the cell the pointer was over
/// during the last draw pass.
pub struct Viewport {
    pub pane_type: PaneType,
    pub buffer_id: usize,
    pub rect: Rect,
    pub line_height: usize,
    pub scroll_idx: usize,
    pub scroll_offset: usize,
    pub chars_per_line: usize,
    pub display_line_count: usize,
    pub cursor_x: usize,
    pub cursor_y: usize,
}

impl Viewport {
    /// The pixel offset the animation is converging to.
    pub open spec fn target_offset(&self) -> int {
        self.scroll_idx * self.line_height
    }

    pub open spec fn wf(&self) -> bool {
        &&& 1 <= self.line_height <= MAX_LINE_HEIGHT
        &&& self.chars_per_line >= 1
        &&& self.scroll_idx <= MAX_DISPLAY_LINES + BOTTOM_MARGIN
        &&& self.scroll_offset <= (MAX_DISPLAY_LINES + BOTTOM_MARGIN) * MAX_LINE_HEIGHT
        &&& self.display_line_count <= MAX_DISPLAY_LINES
    }

    /// A fresh pane over buffer `buffer_id`, scrolled to the top.
    pub fn new(pane_type: PaneType, buffer_id: usize, line_height: usize) -> (v: Viewport)
        requires
            1 <= line_height <= MAX_LINE_HEIGHT,
        ensures
            v.wf(),
            v.buffer_id == buffer_id,
            v.line_height == line_height,
            v.scroll_idx == 0 && v.scroll_offset == 0,
            v.chars_per_line == 1,
            v.display_line_count == 0,
            v.cursor_x == 0 && v.cursor_y == 0,
    {
        Viewport {
            pane_type,
            buffer_id,
            rect: Rect::new(0, 0, 0, 0),
            line_height,
            scroll_idx: 0,
            scroll_offset: 0,
            chars_per_line: 1,
            display_line_count: 0,
            cursor_x: 0,
            cursor_y: 0,
        }
    }

    /// One redraw tick of the scroll animation: the offset moves a third of
    /// the remaining distance toward the target, rounded away from zero. It
    /// never overshoots, always makes progress while short of the target,
    /// and does nothing once converged.
    pub fn scroll_tick(&mut self)
        requires
            old(self).wf(),
        ensures
            final(self).wf(),
            final(self).scroll_offset as int == tick_spec(
                old(self).scroll_offset as int,
                old(self).target_offset(),
            ),
            old(self).scroll_offset as int == old(self).target_offset() ==> final(self)
                .scroll_offset == old(self).scroll_offset,
            old(self).scroll_offset < old(self).target_offset() ==> old(self).scroll_offset
                < final(self).scroll_offset <= old(self).target_offset(),
            old(self).scroll_offset > old(self).target_offset() ==> old(self).target_offset()
                <= final(self).scroll_offset < old(self).scroll_offset,
            final(self).scroll_idx == old(self).scroll_idx,
            final(self).line_height == old(self).line_height,
            final(self).chars_per_line == old(self).chars_per_line,
            final(self).display_line_count == old(self).display_line_count,
            final(self).rect == old(self).rect,
            final(self).buffer_id == old(self).buffer_id,
            final(self).cursor_x == old(self).cursor_x,
            final(self).cursor_y == old(self).cursor_y,
    {
        proof {
            assert(self.scroll_idx * self.line_height <= (MAX_DISPLAY_LINES + BOTTOM_MARGIN)
                * MAX_LINE_HEIGHT) by (nonlinear_arith)
                requires
                    self.scroll_idx <= MAX_DISPLAY_LINES + BOTTOM_MARGIN,
                    self.line_height <= MAX_LINE_HEIGHT,
            ;
        }
        let target = self.scroll_idx * self.line_height;
        if self.scroll_offset < target {
            let d = target - self.scroll_offset;
            self.scroll_offset = self.scroll_offset + (d + 2) / 3;
        } else if self.scroll_offset > target {
            let d = self.scroll_offset - target;
            self.scroll_offset = self.scroll_offset - (d + 2) / 3;
        }
    }

    /// The scroll range: the display lines plus a margin, less the rows the
    /// pane can show below its title bar, never negative.
    pub open spec fn scroll_limit(&self) -> int {
        let bar = self.line_height + 2 * (PADDING as int);
        let page = if self.rect.h >= bar {
            (self.rect.h - bar) / (self.line_height as int)
        } else {
            0
        };
        let room = self.display_line_count + BOTTOM_MARGIN - page;
        if room >= 0 {
            room
        } else {
            0
        }
    }

    /// Moves the scroll target by `delta` lines, clamped to the scroll
    /// range; the animated offset is left to catch up tick by tick.
    pub fn scroll(&mut self, delta: i64)
        requires
            old(self).wf(),
            -0x100000000 <= delta <= 0x100000000,
        ensures
            final(self).wf(),
            final(self).scroll_idx as int == {
                let cand = old(self).scroll_idx + delta;
                if cand < 0 {
                    0
                } else if cand > old(self).scroll_limit() {
                    old(self).scroll_limit()
                } else {
                    cand
                }
            },
            final(self).scroll_offset == old(self).scroll_offset,
            final(self).line_height == old(self).line_height,
            final(self).chars_per_line == old(self).chars_per_line,
            final(self).display_line_count == old(self).display_line_count,
            final(self).rect == old(self).rect,
            final(self).buffer_id == old(self).buffer_id,
    {
        let bar: usize = self.line_height + 2 * (PADDING as usize);
        let page: usize = if self.rect.h >= 0 && self.rect.h as usize >= bar {
            (self.rect.h as usize - bar) / self.line_height
        } else {
            0
        };
        let room: usize = self.display_line_count + BOTTOM_MARGIN;
        let limit: usize = if page >= room {
            0
        } else {
            room - page
        };
        let cand: i64 = self.scroll_idx as i64 + delta;
        self.scroll_idx = if cand < 0 {
            0
        } else if cand > limit as i64 {
            limit
        } else {
            cand as usize
        };
    }

    /// Recomputes the wrap width from the pane's inner width and the glyph
    /// width: at least one column, else as many glyphs as fit.
    pub fn update_wrap_width(&mut self, margins: usize, glyph_width: usize)
        requires
            old(self).wf(),
            glyph_width >= 1,
        ensures
            final(self).wf(),
            final(self).chars_per_line as int == {
                let inner = old(self).rect.w - margins;
                if inner >= 0 && inner / (glyph_width as int) >= 1 {
                    inner / (glyph_width as int)
                } else {
                    1
                }
            },
            final(self).scroll_idx == old(self).scroll_idx,
            final(self).scroll_offset == old(self).scroll_offset,
            final(self).line_height == old(self).line_height,
            final(self).display_line_count == old(self).display_line_count,
            final(self).rect == old(self).rect,
            final(self).buffer_id == old(self).buffer_id,
    {
        if self.rect.w >= 0 && margins <= i32::MAX as usize && self.rect.w as usize >= margins {
            let inner = self.rect.w as usize - margins;
            let cols = inner / glyph_width;
            self.chars_per_line = if cols >= 1 {
                cols
            } else {
                1
            };
        } else {
            self.chars_per_line = 1;
            proof {
                assert(old(self).rect.w - margins < 0);
            }
        }
    }

    /// Recounts the display lines of `buffer` at the current wrap width,
    /// capped at the supported maximum.
    #[verifier::loop_isolation(false)]
    pub fn update_display_lines(&mut self, buffer: &Buffer)
        requires
            old(self).wf(),
        ensures
            final(self).wf(),
            final(self).display_line_count as int == {
                let rows = display_rows(buffer.doc(), old(self).chars_per_line as int);
                if rows <= MAX_DISPLAY_LINES {
                    rows
                } else {
                    MAX_DISPLAY_LINES as int
                }
            },
            final(self).display_line_count as int >= if buffer.doc().len() <= MAX_DISPLAY_LINES {
                buffer.doc().len() as int
            } else {
                MAX_DISPLAY_LINES as int
            },
            final(self).scroll_idx == old(self).scroll_idx,
            final(self).scroll_offset == old(self).scroll_offset,
            final(self).line_height == old(self).line_height,
            final(self).chars_per_line == old(self).chars_per_line,
            final(self).rect == old(self).rect,
            final(self).buffer_id == old(self).buffer_id,
    {
        let ghost doc = buffer.doc();
        let ghost w = self.chars_per_line as int;
        let n = buffer.len();
        let mut acc: usize = 0;
        let mut capped: bool = false;
        let mut i: usize = 0;
        proof {
            assert(doc.take(0) =~~= Seq::<Seq<Seq<char>>>::empty());
        }
        while i < n
            invariant
                i <= n,
                !capped ==> acc as int == display_rows(doc.take(i as int), w) && acc
                    <= MAX_DISPLAY_LINES,
                capped ==> display_rows(doc.take(i as int), w) > MAX_DISPLAY_LINES,
            decreases n - i,
        {
            proof {
                lemma_display_rows_take_step(doc, w, i as int);
            }
            if !capped {
                let llen = buffer.line_len(i);
                let extra = llen / self.chars_per_line;
                if extra >= MAX_DISPLAY_LINES || acc + 1 > MAX_DISPLAY_LINES - extra {
                    capped = true;
                    proof {
                        lemma_display_rows_mono(doc, w, i as int, i + 1);
                    }
                } else {
                    acc = acc + 1 + extra;
                }
            } else {
                proof {
                    lemma_display_rows_mono(doc, w, i as int, i + 1);
                }
            }
            i += 1;
        }
        proof {
            assert(doc.take(n as int) =~~= doc);
            assert(doc.take(0) =~~= Seq::<Seq<Seq<char>>>::empty());
            lemma_display_rows_mono(doc, w, 0, doc.len() as int);
        }
        self.display_line_count = if capped {
            MAX_DISPLAY_LINES
        } else {
            acc
        };
    }

    /// The half-open range of document lines that can intersect the pane:
    /// generous by one screenful on each side of the target line, clamped
    /// to the document. The range never reaches outside `[0, len)`, even
    /// mid-animation or with the target past the end.
    pub fn get_lines_on_screen(&self, buffer: &Buffer) -> (r: (usize, usize))
        requires
            self.wf(),
            buffer.wf(),
        ensures
            r.0 <= r.1,
            r.1 <= buffer.doc().len(),
            ({
                let lh = self.line_height as int;
                let h = if self.rect.h >= 0 {
                    self.rect.h as int
                } else {
                    0
                };
                let screenful = (h + lh - 1) / lh;
                let lo = if self.scroll_idx - screenful >= 0 {
                    self.scroll_idx - screenful
                } else {
                    0
                };
                &&& r.1 as int == if self.scroll_idx + screenful <= buffer.doc().len() {
                    self.scroll_idx + screenful
                } else {
                    buffer.doc().len() as int
                }
                &&& r.0 as int == if lo <= r.1 {
                    lo
                } else {
                    r.1 as int
                }
            }),
    {
        let h: usize = if self.rect.h >= 0 {
            self.rect.h as usize
        } else {
            0
        };
        let screenful: usize = (h + self.line_height - 1) / self.line_height;
        let first: usize = if screenful >= self.scroll_idx {
            0
        } else {
            self.scroll_idx - screenful
        };
        let len = buffer.len();
        let upper: usize = self.scroll_idx + screenful;
        let last: usize = if upper <= len {
            upper
        } else {
            len
        };
        let first: usize = if first <= last {
            first
        } else {
            last
        };
        (first, last)
    }
}

} // verus!
