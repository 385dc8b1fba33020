//! The document buffer: line storage in grapheme-cluster form, cursor and
//! selection state, and the undo/redo action log.
//!
//! Invariants: the buffer always holds at least one (possibly empty) line,
//! the cursor and the selection anchor always lie in the document, and both
//! action stacks replay exactly — rewinding the undo stack from the current
//! document always yields the same base document (`base_doc`), and playing
//! the redo stack forward always yields the same edited document
//! (`edited_doc`). Those two folds being invariant across every operation is
//! the undo/redo inverse law.

use crate::edits::{
    extract_block, insert_end_x, insert_end_y, lemma_delete_then_insert, lemma_insert_then_delete,
    pos_valid, span_valid, splice_delete, splice_insert,
};
use crate::history::{
    action_wf, forward, lemma_redo_chain_push, lemma_redo_then_undo, lemma_stack_model_drop,
    lemma_stack_model_push, lemma_undo_chain_push, lemma_undo_then_redo, redo_chain_ok, redo_ok,
    redo_step, rewind, stack_model, undo_chain_ok, undo_ok, undo_step, Action, ActionSpec,
};
use crate::rows::{
    block_to_string, clone_cells, extract_span, line_to_string, splice_block_at, splice_delete_at,
};
use crate::text::{block_text, graphemes_map, text_block_spec, TextBlock};
use crate::unicode::{graphemes_of, split_graphemes, word_bound_indices, word_bounds_of};
use vstd::utf8::encode_utf8;
use vstd::prelude::*;
use vstd::string::*;

verus! {

/// The nearest line index at or before `y` that lies in the document.
pub open spec fn clamp_line(doc: Seq<Seq<Seq<char>>>, y: int) -> int {
    if y < doc.len() {
        y
    } else {
        doc.len() - 1
    }
}

/// The nearest column at or before `x` that lies on line `y`.
pub open spec fn clamp_col(doc: Seq<Seq<Seq<char>>>, y: int, x: int) -> int {
    if x <= doc[y].len() {
        x
    } else {
        doc[y].len() as int
    }
}

/// The column a vertical cursor move lands on: the cursor prefers the
/// remembered column but never passes the line's end, and never retreats
/// below the smaller candidate.
pub open spec fn sticky_col(len: int, cx: int, mcx: int) -> int {
    let a = if cx < len {
        cx
    } else {
        len
    };
    let b = if mcx < len {
        mcx
    } else {
        len
    };
    if a > b {
        a
    } else {
        b
    }
}

/// Sticky column: moving onto a shorter line clamps the cursor to that
/// line's end, and moving back onto a line at least as long as the
/// remembered column restores the column exactly, with no horizontal move
/// in between.
pub proof fn lemma_sticky_column(len1: int, len2: int, cx: int)
    requires
        0 <= cx <= len1,
        0 <= len2 < cx,
    ensures
        sticky_col(len2, cx, cx) == len2,
        sticky_col(len1, sticky_col(len2, cx, cx), cx) == cx,
{
}

/// The grapheme-wise successor of a position: one cluster right, or the
/// start of the next line, saturating at the end of the document.
pub open spec fn next_char_spec(doc: Seq<Seq<Seq<char>>>, x: int, y: int) -> (int, int) {
    if x < doc[y].len() {
        (x + 1, y)
    } else if y < doc.len() - 1 {
        (0, y + 1)
    } else {
        (x, y)
    }
}

/// The grapheme-wise predecessor of a position: one cluster left, or the
/// end of the previous line, saturating at the start of the document.
pub open spec fn prev_char_spec(doc: Seq<Seq<Seq<char>>>, x: int, y: int) -> (int, int) {
    if x > 0 {
        (x - 1, y)
    } else if y > 0 {
        (doc[y - 1].len() as int, y - 1)
    } else {
        (x, y)
    }
}

/// The first entry in a list of word-bound columns that lies strictly
/// after column `x`, in list order.
pub open spec fn first_bound_after(bounds: Seq<int>, x: int) -> Option<int>
    decreases bounds.len(),
{
    if bounds.len() == 0 {
        None
    } else if bounds[0] > x {
        Some(bounds[0])
    } else {
        first_bound_after(bounds.skip(1), x)
    }
}

/// The last entry in a list of word-bound columns that lies strictly
/// before column `x`, scanning the list from its end.
pub open spec fn last_bound_before(bounds: Seq<int>, x: int) -> Option<int>
    decreases bounds.len(),
{
    if bounds.len() == 0 {
        None
    } else if bounds.last() < x {
        Some(bounds.last())
    } else {
        last_bound_before(bounds.drop_last(), x)
    }
}

/// The grapheme column a byte offset into a line's text falls on: whole
/// clusters whose bytes lie entirely before the offset are counted, and an
/// offset inside a cluster maps to that cluster's own column.
pub open spec fn col_of_byte(line: Seq<Seq<char>>, b: int) -> int
    decreases line.len(),
{
    if line.len() == 0 {
        0
    } else if encode_utf8(line[0]).len() <= b {
        1 + col_of_byte(line.skip(1), b - encode_utf8(line[0]).len())
    } else {
        0
    }
}

/// A byte offset never maps past the end of the line.
pub proof fn lemma_col_of_byte_in_range(line: Seq<Seq<char>>, b: int)
    ensures
        0 <= col_of_byte(line, b) <= line.len(),
    decreases line.len(),
{
    if line.len() > 0 && encode_utf8(line[0]).len() <= b {
        lemma_col_of_byte_in_range(line.skip(1), b - encode_utf8(line[0]).len());
    }
}

/// The word bounds of a line as grapheme columns: each byte offset the
/// Unicode word segmentation reports, converted onto the line's clusters.
pub open spec fn word_cols(line: Seq<Seq<char>>) -> Seq<int> {
    let bs = word_bounds_of(crate::text::line_text(line));
    Seq::new(bs.len(), |i: int| col_of_byte(line, bs[i] as int))
}

/// Converts a byte offset into a line's text to the grapheme column it
/// falls on, by walking the clusters' byte lengths.
#[verifier::loop_isolation(false)]
fn byte_to_column(cells: &Vec<String>, b: usize) -> (c: usize)
    ensures
        c as int == col_of_byte(cells.deep_view(), b as int),
        c <= cells@.len(),
{
    let ghost line = cells.deep_view();
    proof {
        lemma_col_of_byte_in_range(line, b as int);
        assert(line.skip(0) =~~= line);
    }
    let mut i: usize = 0;
    let mut rest: usize = b;
    while i < cells.len()
        invariant
            i <= line.len(),
            rest <= b,
            col_of_byte(line, b as int) == i + col_of_byte(line.skip(i as int), rest as int),
        decreases line.len() - i,
    {
        let cs = cells[i].as_str();
        let hb = cs.as_bytes().len();
        proof {
            assert(line.skip(i as int)[0] == line[i as int]);
            assert(cs@ == line[i as int]);
            assert(cs.spec_bytes() == encode_utf8(cs@));
            assert(hb == encode_utf8(line[i as int]).len());
        }
        if hb <= rest {
            proof {
                assert(line.skip(i as int).skip(1) =~~= line.skip(i + 1));
                assert(col_of_byte(line.skip(i as int), rest as int) == 1 + col_of_byte(
                    line.skip(i + 1),
                    rest - hb,
                ));
            }
            rest = rest - hb;
            i += 1;
        } else {
            return i;
        }
    }
    proof {
        assert(line.skip(line.len() as int) =~~= Seq::<Seq<char>>::empty());
    }
    i
}

/// A line-oriented text buffer with grapheme-cluster coordinates. Each line
/// is stored as its sequence of grapheme clusters; every `x` coordinate
/// counts clusters, never bytes.
pub struct Buffer {
    pub name: String,
    pub contents: Vec<Vec<String>>,
    pub is_dirty: bool,
    pub undo_stack: Vec<Action>,
    pub redo_stack: Vec<Action>,
    pub cursor_x: usize,
    pub max_cursor_x: usize,
    pub cursor_y: usize,
    pub sel_x: usize,
    pub sel_y: usize,
}

impl Buffer {
    /// The mathematical document: lines of grapheme clusters of characters.
    pub open spec fn doc(&self) -> Seq<Seq<Seq<char>>> {
        self.contents.deep_view()
    }

    pub open spec fn undo_models(&self) -> Seq<ActionSpec> {
        stack_model(self.undo_stack@)
    }

    pub open spec fn redo_models(&self) -> Seq<ActionSpec> {
        stack_model(self.redo_stack@)
    }

    /// Structural well-formedness: at least one line, cursor and anchor on
    /// valid positions.
    pub open spec fn wf(&self) -> bool {
        &&& self.doc().len() >= 1
        &&& pos_valid(self.doc(), self.cursor_x as int, self.cursor_y as int)
        &&& pos_valid(self.doc(), self.sel_x as int, self.sel_y as int)
    }

    /// The action log replays: every undo on the stack can be taken back
    /// out of the current document, and every redo can be replayed onto it.
    pub open spec fn history_wf(&self) -> bool {
        &&& undo_chain_ok(self.doc(), self.undo_models())
        &&& redo_chain_ok(self.doc(), self.redo_models())
    }

    /// The base document: the current document with the whole undo stack
    /// applied backward. Every edit, undo and redo leaves it unchanged.
    pub open spec fn base_doc(&self) -> Seq<Seq<Seq<char>>> {
        rewind(self.doc(), self.undo_models())
    }

    /// The edited document: the current document with the whole redo stack
    /// applied forward. Undo and redo leave it unchanged.
    pub open spec fn edited_doc(&self) -> Seq<Seq<Seq<char>>> {
        forward(self.doc(), self.redo_models())
    }

    /// The selection's corners in document order, earlier position first.
    pub open spec fn sel_span(&self) -> (int, int, int, int) {
        if self.sel_y > self.cursor_y || (self.sel_y == self.cursor_y && self.sel_x
            > self.cursor_x) {
            (self.cursor_x as int, self.cursor_y as int, self.sel_x as int, self.sel_y as int)
        } else {
            (self.sel_x as int, self.sel_y as int, self.cursor_x as int, self.cursor_y as int)
        }
    }

    /// A fresh unnamed buffer holding one empty line.
    pub fn new() -> (b: Buffer)
        ensures
            b.wf(),
            b.history_wf(),
            b.doc() == seq![Seq::<Seq<char>>::empty()],
            b.undo_models() == Seq::<ActionSpec>::empty(),
            b.redo_models() == Seq::<ActionSpec>::empty(),
            b.cursor_x == 0 && b.cursor_y == 0 && b.sel_x == 0 && b.sel_y == 0,
            b.max_cursor_x == 0,
            b.name@ == "UNNAMED"@,
            !b.is_dirty,
    {
        let mut buffer = Buffer {
            contents: Vec::new(),
            name: String::from_str("UNNAMED"),
            is_dirty: false,
            undo_stack: Vec::new(),
            redo_stack: Vec::new(),
            cursor_x: 0,
            max_cursor_x: 0,
            cursor_y: 0,
            sel_x: 0,
            sel_y: 0,
        };
        buffer.push_line(String::new());
        proof {
            assert(buffer.doc() =~~= Seq::<Seq<Seq<char>>>::empty() + seq![
                Seq::<Seq<char>>::empty()
            ]);
            assert(Seq::<Seq<Seq<char>>>::empty() + seq![Seq::<Seq<char>>::empty()] =~= seq![
                Seq::<Seq<char>>::empty()
            ]);
            assert(buffer.undo_models() =~= Seq::<ActionSpec>::empty());
            assert(buffer.redo_models() =~= Seq::<ActionSpec>::empty());
        }
        buffer
    }

    /// A buffer over the given lines, as read from a file: each string is
    /// one line, an empty file still yields one empty line.
    pub fn from_lines(name: String, lines: Vec<String>) -> (b: Buffer)
        ensures
            b.wf(),
            b.history_wf(),
            lines@.len() == 0 ==> b.doc() == seq![Seq::<Seq<char>>::empty()],
            lines@.len() > 0 ==> b.doc() == graphemes_map(lines.deep_view()),
            b.undo_models() == Seq::<ActionSpec>::empty(),
            b.redo_models() == Seq::<ActionSpec>::empty(),
            b.cursor_x == 0 && b.cursor_y == 0 && b.sel_x == 0 && b.sel_y == 0,
            b.name == name,
            !b.is_dirty,
    {
        let mut buffer = Buffer {
            contents: Vec::new(),
            name,
            is_dirty: false,
            undo_stack: Vec::new(),
            redo_stack: Vec::new(),
            cursor_x: 0,
            max_cursor_x: 0,
            cursor_y: 0,
            sel_x: 0,
            sel_y: 0,
        };
        let mut i: usize = 0;
        while i < lines.len()
            invariant
                i <= lines@.len(),
                buffer.contents.deep_view() == graphemes_map(lines.deep_view().take(i as int)),
                buffer.undo_stack@.len() == 0,
                buffer.redo_stack@.len() == 0,
                buffer.cursor_x == 0 && buffer.cursor_y == 0 && buffer.sel_x == 0
                    && buffer.sel_y == 0,
                buffer.name == name,
                !buffer.is_dirty,
            decreases lines@.len() - i,
        {
            let cells = split_graphemes(lines[i].as_str());
            let ghost prev = buffer.contents.deep_view();
            buffer.contents.push(cells);
            proof {
                let cur = buffer.contents.deep_view();
                let tgt = graphemes_map(lines.deep_view().take(i + 1));
                assert(prev.len() == i as int);
                assert(cur.len() == i + 1);
                assert(tgt.len() == i + 1);
                assert forall|j: int| 0 <= j < i + 1 implies cur[j] == tgt[j] by {
                    assert(tgt[j] == graphemes_of(lines.deep_view().take(i + 1)[j]));
                    if j < i {
                        assert(cur[j] == prev[j]);
                        assert(prev[j] == graphemes_of(lines.deep_view().take(i as int)[j]));
                    } else {
                        assert(cur[j] == cells.deep_view());
                    }
                }
                assert(cur =~~= tgt);
            }
            i += 1;
        }
        if buffer.contents.is_empty() {
            buffer.push_line(String::new());
            proof {
                assert(buffer.doc() =~= Seq::<Seq<Seq<char>>>::empty() + seq![
                    Seq::<Seq<char>>::empty()
                ]);
                assert(Seq::<Seq<Seq<char>>>::empty() + seq![Seq::<Seq<char>>::empty()] =~= seq![
                    Seq::<Seq<char>>::empty()
                ]);
            }
        } else {
            proof {
                assert(lines.deep_view().take(lines@.len() as int) =~~= lines.deep_view());
            }
        }
        proof {
            assert(buffer.undo_models() =~= Seq::<ActionSpec>::empty());
            assert(buffer.redo_models() =~= Seq::<ActionSpec>::empty());
        }
        buffer
    }

    /// The number of lines.
    pub fn len(&self) -> (r: usize)
        ensures
            r == self.doc().len(),
    {
        self.contents.len()
    }

    /// Whether the buffer holds no lines at all; a well-formed buffer never
    /// does.
    pub fn is_empty(&self) -> (r: bool)
        ensures
            r == (self.doc().len() == 0),
    {
        self.contents.is_empty()
    }

    /// The number of grapheme clusters on line `y`.
    pub fn line_len(&self, y: usize) -> (r: usize)
        requires
            y < self.doc().len(),
        ensures
            r == self.doc()[y as int].len(),
    {
        self.contents[y].len()
    }

    /// The grapheme clusters of line `y`, in order.
    pub fn line_graphemes(&self, y: usize) -> (r: Vec<String>)
        requires
            y < self.doc().len(),
        ensures
            r.deep_view() == self.doc()[y as int],
    {
        clone_cells(&self.contents[y])
    }

    /// The text of line `y`: its grapheme clusters joined.
    pub fn line_string(&self, y: usize) -> (r: String)
        requires
            y < self.doc().len(),
        ensures
            r@ == crate::text::line_text(self.doc()[y as int]),
    {
        line_to_string(&self.contents[y])
    }

    /// Appends a line at the end of the buffer.
    pub fn push_line(&mut self, s: String)
        ensures
            final(self).doc() == old(self).doc() + seq![graphemes_of(s@)],
            final(self).contents@.len() == old(self).contents@.len() + 1,
            final(self).undo_stack == old(self).undo_stack,
            final(self).redo_stack == old(self).redo_stack,
            final(self).cursor_x == old(self).cursor_x,
            final(self).cursor_y == old(self).cursor_y,
            final(self).sel_x == old(self).sel_x,
            final(self).sel_y == old(self).sel_y,
            final(self).max_cursor_x == old(self).max_cursor_x,
            final(self).name == old(self).name,
            final(self).is_dirty == old(self).is_dirty,
            old(self).wf() ==> final(self).wf(),
            s@.len() == 0 ==> graphemes_of(s@) == Seq::<Seq<char>>::empty(),
    {
        let cells = split_graphemes(s.as_str());
        proof {
            if s@.len() == 0 {
                assert(graphemes_of(s@) =~~= Seq::<Seq<char>>::empty());
            }
        }
        self.contents.push(cells);
        proof {
            assert(self.doc() =~~= old(self).doc() + seq![graphemes_of(s@)]);
        }
    }

    /// Replaces the whole buffer with one empty line and clears the action
    /// log; the cursor and the anchor move to the start.
    pub fn clear(&mut self)
        ensures
            final(self).wf(),
            final(self).history_wf(),
            final(self).doc() == seq![Seq::<Seq<char>>::empty()],
            final(self).undo_models() == Seq::<ActionSpec>::empty(),
            final(self).redo_models() == Seq::<ActionSpec>::empty(),
            final(self).cursor_x == 0 && final(self).cursor_y == 0,
            final(self).sel_x == 0 && final(self).sel_y == 0,
            final(self).max_cursor_x == 0,
            final(self).name == old(self).name,
            final(self).is_dirty == old(self).is_dirty,
    {
        let mut fresh: Vec<Vec<String>> = Vec::new();
        fresh.push(Vec::new());
        self.contents = fresh;
        self.undo_stack = Vec::new();
        self.redo_stack = Vec::new();
        self.cursor_x = 0;
        self.cursor_y = 0;
        self.sel_x = 0;
        self.sel_y = 0;
        self.max_cursor_x = 0;
        proof {
            assert(self.doc() =~~= seq![Seq::<Seq<char>>::empty()]);
            assert(self.undo_models() =~= Seq::<ActionSpec>::empty());
            assert(self.redo_models() =~= Seq::<ActionSpec>::empty());
        }
    }

    /// Inserts a line before index `y`; the cursor and the anchor are
    /// clamped back into the document if the shift left them past a line
    /// end.
    pub fn insert_line(&mut self, y: usize, s: String)
        requires
            y <= old(self).doc().len(),
        ensures
            final(self).doc() == old(self).doc().insert(y as int, graphemes_of(s@)),
            final(self).cursor_y as int == clamp_line(final(self).doc(), old(self).cursor_y as int),
            final(self).cursor_x as int == clamp_col(
                final(self).doc(),
                final(self).cursor_y as int,
                old(self).cursor_x as int,
            ),
            final(self).sel_y as int == clamp_line(final(self).doc(), old(self).sel_y as int),
            final(self).sel_x as int == clamp_col(
                final(self).doc(),
                final(self).sel_y as int,
                old(self).sel_x as int,
            ),
            final(self).undo_stack == old(self).undo_stack,
            final(self).redo_stack == old(self).redo_stack,
            final(self).max_cursor_x == old(self).max_cursor_x,
            final(self).name == old(self).name,
            final(self).is_dirty == old(self).is_dirty,
            final(self).wf(),
    {
        let cells = split_graphemes(s.as_str());
        self.contents.insert(y, cells);
        proof {
            assert(self.doc() =~~= old(self).doc().insert(y as int, graphemes_of(s@)));
        }
        self.fix_positions();
    }

    /// Clamps the cursor and the anchor back onto valid positions.
    fn fix_positions(&mut self)
        requires
            old(self).doc().len() >= 1,
        ensures
            final(self).cursor_y as int == clamp_line(old(self).doc(), old(self).cursor_y as int),
            final(self).cursor_x as int == clamp_col(
                old(self).doc(),
                final(self).cursor_y as int,
                old(self).cursor_x as int,
            ),
            final(self).sel_y as int == clamp_line(old(self).doc(), old(self).sel_y as int),
            final(self).sel_x as int == clamp_col(
                old(self).doc(),
                final(self).sel_y as int,
                old(self).sel_x as int,
            ),
            final(self).contents == old(self).contents,
            final(self).undo_stack == old(self).undo_stack,
            final(self).redo_stack == old(self).redo_stack,
            final(self).max_cursor_x == old(self).max_cursor_x,
            final(self).name == old(self).name,
            final(self).is_dirty == old(self).is_dirty,
            final(self).wf(),
    {
        if self.cursor_y >= self.contents.len() {
            self.cursor_y = self.contents.len() - 1;
        }
        let clen = self.contents[self.cursor_y].len();
        if self.cursor_x > clen {
            self.cursor_x = clen;
        }
        if self.sel_y >= self.contents.len() {
            self.sel_y = self.contents.len() - 1;
        }
        let slen = self.contents[self.sel_y].len();
        if self.sel_x > slen {
            self.sel_x = slen;
        }
    }

    /// Inserts `text` at `(x, y)`: line `y` is split at cluster `x` and each
    /// `'\n'` in `text` starts a new line. Records the insertion on the undo
    /// stack, clears the redo stack and marks the buffer dirty; the base
    /// document is unchanged. Returns the position just after the inserted
    /// text. The cursor and the anchor are clamped back into the document.
    pub fn insert_text(&mut self, x: usize, y: usize, text: String) -> (end: (usize, usize))
        requires
            old(self).wf(),
            old(self).history_wf(),
            pos_valid(old(self).doc(), x as int, y as int),
        ensures
            final(self).wf(),
            final(self).history_wf(),
            final(self).doc() == splice_insert(
                old(self).doc(),
                x as int,
                y as int,
                text_block_spec(text@),
            ),
            end.0 as int == insert_end_x(x as int, text_block_spec(text@)),
            end.1 as int == insert_end_y(y as int, text_block_spec(text@)),
            final(self).undo_models() == old(self).undo_models().push(
                ActionSpec::Insert {
                    x1: x as int,
                    y1: y as int,
                    x2: end.0 as int,
                    y2: end.1 as int,
                    text: text_block_spec(text@),
                },
            ),
            final(self).redo_models() == Seq::<ActionSpec>::empty(),
            final(self).base_doc() == old(self).base_doc(),
            final(self).is_dirty,
            pos_valid(final(self).doc(), end.0 as int, end.1 as int),
            final(self).cursor_y as int == clamp_line(final(self).doc(), old(self).cursor_y as int),
            final(self).cursor_x as int == clamp_col(
                final(self).doc(),
                final(self).cursor_y as int,
                old(self).cursor_x as int,
            ),
            final(self).sel_y as int == clamp_line(final(self).doc(), old(self).sel_y as int),
            final(self).sel_x as int == clamp_col(
                final(self).doc(),
                final(self).sel_y as int,
                old(self).sel_x as int,
            ),
            final(self).max_cursor_x == old(self).max_cursor_x,
            final(self).name == old(self).name,
    {
        let block = TextBlock::from_text(text.as_str());
        let ghost doc0 = self.doc();
        let ghost bm = block.model();
        let ghost undo0 = self.undo_stack@;
        let end = splice_block_at(&mut self.contents, x, y, &block);
        proof {
            lemma_insert_then_delete(doc0, x as int, y as int, bm);
        }
        let action = Action::Insert { x1: x, y1: y, x2: end.0, y2: end.1, text: block };
        let ghost am = action.model();
        proof {
            lemma_stack_model_push(undo0, action);
            assert(action_wf(am));
            assert(undo_ok(self.doc(), am));
            assert(undo_step(self.doc(), am) == doc0);
            lemma_undo_chain_push(self.doc(), stack_model(undo0), am, doc0);
        }
        self.undo_stack.push(action);
        self.redo_stack = Vec::new();
        self.is_dirty = true;
        proof {
            assert(self.redo_models() =~= Seq::<ActionSpec>::empty());
        }
        self.fix_positions();
        end
    }

    /// Deletes the span from `(x1, y1)` to `(x2, y2)` and returns the
    /// removed text, its lines joined by newlines. Records the deletion on
    /// the undo stack, clears the redo stack and marks the buffer dirty; the
    /// base document is unchanged. The cursor and the anchor are clamped
    /// back into the document.
    pub fn delete_text(&mut self, x1: usize, y1: usize, x2: usize, y2: usize) -> (removed: String)
        requires
            old(self).wf(),
            old(self).history_wf(),
            span_valid(old(self).doc(), x1 as int, y1 as int, x2 as int, y2 as int),
        ensures
            final(self).wf(),
            final(self).history_wf(),
            final(self).doc() == splice_delete(
                old(self).doc(),
                x1 as int,
                y1 as int,
                x2 as int,
                y2 as int,
            ),
            removed@ == block_text(
                extract_block(old(self).doc(), x1 as int, y1 as int, x2 as int, y2 as int),
            ),
            final(self).undo_models() == old(self).undo_models().push(
                ActionSpec::Delete {
                    x1: x1 as int,
                    y1: y1 as int,
                    x2: x2 as int,
                    y2: y2 as int,
                    text: extract_block(
                        old(self).doc(),
                        x1 as int,
                        y1 as int,
                        x2 as int,
                        y2 as int,
                    ),
                },
            ),
            final(self).redo_models() == Seq::<ActionSpec>::empty(),
            final(self).base_doc() == old(self).base_doc(),
            final(self).is_dirty,
            final(self).cursor_y as int == clamp_line(final(self).doc(), old(self).cursor_y as int),
            final(self).cursor_x as int == clamp_col(
                final(self).doc(),
                final(self).cursor_y as int,
                old(self).cursor_x as int,
            ),
            final(self).sel_y as int == clamp_line(final(self).doc(), old(self).sel_y as int),
            final(self).sel_x as int == clamp_col(
                final(self).doc(),
                final(self).sel_y as int,
                old(self).sel_x as int,
            ),
            final(self).max_cursor_x == old(self).max_cursor_x,
            final(self).name == old(self).name,
    {
        let block = extract_span(&self.contents, x1, y1, x2, y2);
        let removed = block_to_string(&block);
        let ghost doc0 = self.doc();
        let ghost undo0 = self.undo_stack@;
        proof {
            lemma_delete_then_insert(doc0, x1 as int, y1 as int, x2 as int, y2 as int);
        }
        splice_delete_at(&mut self.contents, x1, y1, x2, y2);
        let action = Action::Delete { x1, y1, x2, y2, text: block };
        let ghost am = action.model();
        proof {
            lemma_stack_model_push(undo0, action);
            assert(action_wf(am));
            assert(undo_ok(self.doc(), am));
            assert(undo_step(self.doc(), am) == doc0);
            lemma_undo_chain_push(self.doc(), stack_model(undo0), am, doc0);
        }
        self.undo_stack.push(action);
        self.redo_stack = Vec::new();
        self.is_dirty = true;
        proof {
            assert(self.redo_models() =~= Seq::<ActionSpec>::empty());
        }
        self.fix_positions();
        removed
    }

    /// Deletes the span from `(x1, y1)` to `(x2, y2)` and inserts `text` in
    /// its place, recorded as one replacement so a single undo reverts the
    /// whole exchange. Clears the redo stack, marks the buffer dirty and
    /// leaves the base document unchanged. Returns the position just after
    /// the inserted text.
    pub fn replace_text(
        &mut self,
        x1: usize,
        y1: usize,
        x2: usize,
        y2: usize,
        text: String,
    ) -> (end: (usize, usize))
        requires
            old(self).wf(),
            old(self).history_wf(),
            span_valid(old(self).doc(), x1 as int, y1 as int, x2 as int, y2 as int),
        ensures
            final(self).wf(),
            final(self).history_wf(),
            final(self).doc() == splice_insert(
                splice_delete(old(self).doc(), x1 as int, y1 as int, x2 as int, y2 as int),
                x1 as int,
                y1 as int,
                text_block_spec(text@),
            ),
            end.0 as int == insert_end_x(x1 as int, text_block_spec(text@)),
            end.1 as int == insert_end_y(y1 as int, text_block_spec(text@)),
            final(self).undo_models() == old(self).undo_models().push(
                ActionSpec::Replace {
                    x1: x1 as int,
                    y1: y1 as int,
                    dx2: x2 as int,
                    dy2: y2 as int,
                    ix2: end.0 as int,
                    iy2: end.1 as int,
                    deleted: extract_block(
                        old(self).doc(),
                        x1 as int,
                        y1 as int,
                        x2 as int,
                        y2 as int,
                    ),
                    inserted: text_block_spec(text@),
                },
            ),
            final(self).redo_models() == Seq::<ActionSpec>::empty(),
            final(self).base_doc() == old(self).base_doc(),
            final(self).is_dirty,
            pos_valid(final(self).doc(), end.0 as int, end.1 as int),
            final(self).cursor_y as int == clamp_line(final(self).doc(), old(self).cursor_y as int),
            final(self).cursor_x as int == clamp_col(
                final(self).doc(),
                final(self).cursor_y as int,
                old(self).cursor_x as int,
            ),
            final(self).sel_y as int == clamp_line(final(self).doc(), old(self).sel_y as int),
            final(self).sel_x as int == clamp_col(
                final(self).doc(),
                final(self).sel_y as int,
                old(self).sel_x as int,
            ),
            final(self).max_cursor_x == old(self).max_cursor_x,
            final(self).name == old(self).name,
    {
        let deleted = extract_span(&self.contents, x1, y1, x2, y2);
        let ghost doc0 = self.doc();
        let ghost undo0 = self.undo_stack@;
        proof {
            lemma_delete_then_insert(doc0, x1 as int, y1 as int, x2 as int, y2 as int);
        }
        splice_delete_at(&mut self.contents, x1, y1, x2, y2);
        let ghost mid = self.doc();
        let inserted = TextBlock::from_text(text.as_str());
        let ghost im = inserted.model();
        let end = splice_block_at(&mut self.contents, x1, y1, &inserted);
        proof {
            lemma_insert_then_delete(mid, x1 as int, y1 as int, im);
        }
        let action = Action::Replace {
            x1,
            y1,
            dx2: x2,
            dy2: y2,
            ix2: end.0,
            iy2: end.1,
            deleted,
            inserted,
        };
        let ghost am = action.model();
        proof {
            lemma_stack_model_push(undo0, action);
            assert(action_wf(am));
            assert(undo_ok(self.doc(), am));
            assert(splice_delete(self.doc(), x1 as int, y1 as int, end.0 as int, end.1 as int)
                == mid);
            assert(undo_step(self.doc(), am) == doc0);
            lemma_undo_chain_push(self.doc(), stack_model(undo0), am, doc0);
        }
        self.undo_stack.push(action);
        self.redo_stack = Vec::new();
        self.is_dirty = true;
        proof {
            assert(self.redo_models() =~= Seq::<ActionSpec>::empty());
        }
        self.fix_positions();
        end
    }

    /// Splices `text` in at `(x, y)` without touching the action log or the
    /// dirty flag: a raw primitive. After it the recorded actions may no
    /// longer replay; use `insert_text` for an undoable edit.
    pub fn do_insert(&mut self, x: usize, y: usize, text: String) -> (end: (usize, usize))
        requires
            old(self).wf(),
            pos_valid(old(self).doc(), x as int, y as int),
        ensures
            final(self).wf(),
            final(self).doc() == splice_insert(
                old(self).doc(),
                x as int,
                y as int,
                text_block_spec(text@),
            ),
            end.0 as int == insert_end_x(x as int, text_block_spec(text@)),
            end.1 as int == insert_end_y(y as int, text_block_spec(text@)),
            final(self).undo_stack == old(self).undo_stack,
            final(self).redo_stack == old(self).redo_stack,
            final(self).is_dirty == old(self).is_dirty,
            final(self).cursor_y as int == clamp_line(final(self).doc(), old(self).cursor_y as int),
            final(self).cursor_x as int == clamp_col(
                final(self).doc(),
                final(self).cursor_y as int,
                old(self).cursor_x as int,
            ),
            final(self).sel_y as int == clamp_line(final(self).doc(), old(self).sel_y as int),
            final(self).sel_x as int == clamp_col(
                final(self).doc(),
                final(self).sel_y as int,
                old(self).sel_x as int,
            ),
            final(self).max_cursor_x == old(self).max_cursor_x,
            final(self).name == old(self).name,
    {
        let block = TextBlock::from_text(text.as_str());
        let end = splice_block_at(&mut self.contents, x, y, &block);
        self.fix_positions();
        end
    }

    /// Removes the span from `(x1, y1)` to `(x2, y2)` without touching the
    /// action log or the dirty flag: a raw primitive. After it the recorded
    /// actions may no longer replay; use `delete_text` for an undoable edit.
    pub fn do_delete(&mut self, x1: usize, y1: usize, x2: usize, y2: usize) -> (removed: String)
        requires
            old(self).wf(),
            span_valid(old(self).doc(), x1 as int, y1 as int, x2 as int, y2 as int),
        ensures
            final(self).wf(),
            final(self).doc() == splice_delete(
                old(self).doc(),
                x1 as int,
                y1 as int,
                x2 as int,
                y2 as int,
            ),
            removed@ == block_text(
                extract_block(old(self).doc(), x1 as int, y1 as int, x2 as int, y2 as int),
            ),
            final(self).undo_stack == old(self).undo_stack,
            final(self).redo_stack == old(self).redo_stack,
            final(self).is_dirty == old(self).is_dirty,
            final(self).cursor_y as int == clamp_line(final(self).doc(), old(self).cursor_y as int),
            final(self).cursor_x as int == clamp_col(
                final(self).doc(),
                final(self).cursor_y as int,
                old(self).cursor_x as int,
            ),
            final(self).sel_y as int == clamp_line(final(self).doc(), old(self).sel_y as int),
            final(self).sel_x as int == clamp_col(
                final(self).doc(),
                final(self).sel_y as int,
                old(self).sel_x as int,
            ),
            final(self).max_cursor_x == old(self).max_cursor_x,
            final(self).name == old(self).name,
    {
        let block = extract_span(&self.contents, x1, y1, x2, y2);
        let removed = block_to_string(&block);
        splice_delete_at(&mut self.contents, x1, y1, x2, y2);
        self.fix_positions();
        removed
    }

    /// Applies an action backward to the document; the caller maintains the
    /// log.
    fn undo_action(&mut self, a: &Action)
        requires
            old(self).wf(),
            action_wf(a.model()),
            undo_ok(old(self).doc(), a.model()),
        ensures
            final(self).wf(),
            final(self).doc() == undo_step(old(self).doc(), a.model()),
            final(self).cursor_y as int == clamp_line(final(self).doc(), old(self).cursor_y as int),
            final(self).cursor_x as int == clamp_col(
                final(self).doc(),
                final(self).cursor_y as int,
                old(self).cursor_x as int,
            ),
            final(self).sel_y as int == clamp_line(final(self).doc(), old(self).sel_y as int),
            final(self).sel_x as int == clamp_col(
                final(self).doc(),
                final(self).sel_y as int,
                old(self).sel_x as int,
            ),
            final(self).undo_stack == old(self).undo_stack,
            final(self).redo_stack == old(self).redo_stack,
            final(self).is_dirty == old(self).is_dirty,
            final(self).max_cursor_x == old(self).max_cursor_x,
            final(self).name == old(self).name,
    {
        match a {
            Action::Insert { x1, y1, x2, y2, .. } => {
                splice_delete_at(&mut self.contents, *x1, *y1, *x2, *y2);
            },
            Action::Delete { x1, y1, text, .. } => {
                let end = splice_block_at(&mut self.contents, *x1, *y1, text);
            },
            Action::Replace { x1, y1, ix2, iy2, deleted, .. } => {
                let ghost doc0 = self.doc();
                proof {
                    lemma_delete_then_insert(doc0, *x1 as int, *y1 as int, *ix2 as int, *iy2 as int);
                }
                splice_delete_at(&mut self.contents, *x1, *y1, *ix2, *iy2);
                let end = splice_block_at(&mut self.contents, *x1, *y1, deleted);
            },
        }
        self.fix_positions();
    }

    /// Applies an action forward to the document; the caller maintains the
    /// log.
    fn redo_action(&mut self, a: &Action)
        requires
            old(self).wf(),
            action_wf(a.model()),
            redo_ok(old(self).doc(), a.model()),
        ensures
            final(self).wf(),
            final(self).doc() == redo_step(old(self).doc(), a.model()),
            final(self).cursor_y as int == clamp_line(final(self).doc(), old(self).cursor_y as int),
            final(self).cursor_x as int == clamp_col(
                final(self).doc(),
                final(self).cursor_y as int,
                old(self).cursor_x as int,
            ),
            final(self).sel_y as int == clamp_line(final(self).doc(), old(self).sel_y as int),
            final(self).sel_x as int == clamp_col(
                final(self).doc(),
                final(self).sel_y as int,
                old(self).sel_x as int,
            ),
            final(self).undo_stack == old(self).undo_stack,
            final(self).redo_stack == old(self).redo_stack,
            final(self).is_dirty == old(self).is_dirty,
            final(self).max_cursor_x == old(self).max_cursor_x,
            final(self).name == old(self).name,
    {
        match a {
            Action::Insert { x1, y1, text, .. } => {
                let end = splice_block_at(&mut self.contents, *x1, *y1, text);
            },
            Action::Delete { x1, y1, x2, y2, .. } => {
                splice_delete_at(&mut self.contents, *x1, *y1, *x2, *y2);
            },
            Action::Replace { x1, y1, dx2, dy2, inserted, .. } => {
                let ghost doc0 = self.doc();
                proof {
                    lemma_delete_then_insert(doc0, *x1 as int, *y1 as int, *dx2 as int, *dy2 as int);
                }
                splice_delete_at(&mut self.contents, *x1, *y1, *dx2, *dy2);
                let end = splice_block_at(&mut self.contents, *x1, *y1, inserted);
            },
        }
        self.fix_positions();
    }

    /// Takes the most recent action back out of the document and moves it
    /// to the redo stack; with an empty undo stack this is a no-op. The base
    /// document and the edited document are both unchanged: undoing never
    /// loses what redo can replay.
    pub fn undo(&mut self)
        requires
            old(self).wf(),
            old(self).history_wf(),
        ensures
            final(self).wf(),
            final(self).history_wf(),
            final(self).base_doc() == old(self).base_doc(),
            final(self).edited_doc() == old(self).edited_doc(),
            old(self).undo_models().len() == 0 ==> final(self).doc() == old(self).doc()
                && final(self).undo_models() == old(self).undo_models() && final(self).redo_models()
                == old(self).redo_models() && final(self).cursor_x == old(self).cursor_x
                && final(self).cursor_y == old(self).cursor_y
                && final(self).sel_x == old(self).sel_x
                && final(self).sel_y == old(self).sel_y,
            old(self).undo_models().len() > 0 ==> {
                &&& final(self).doc() == undo_step(old(self).doc(), old(self).undo_models().last())
                &&& final(self).undo_models() == old(self).undo_models().drop_last()
                &&& final(self).redo_models() == old(self).redo_models().push(
                    old(self).undo_models().last(),
                )
                &&& final(self).cursor_y as int == clamp_line(
                    final(self).doc(),
                    old(self).cursor_y as int,
                )
                &&& final(self).cursor_x as int == clamp_col(
                    final(self).doc(),
                    final(self).cursor_y as int,
                    old(self).cursor_x as int,
                )
                &&& final(self).sel_y as int == clamp_line(final(self).doc(), old(self).sel_y as int)
                &&& final(self).sel_x as int == clamp_col(
                    final(self).doc(),
                    final(self).sel_y as int,
                    old(self).sel_x as int,
                )
            },
            final(self).max_cursor_x == old(self).max_cursor_x,
            final(self).is_dirty == old(self).is_dirty,
            final(self).name == old(self).name,
    {
        let ghost doc0 = self.doc();
        let ghost undo0 = self.undo_stack@;
        let ghost redo0 = self.redo_stack@;
        let popped = self.undo_stack.pop();
        match popped {
            None => {},
            Some(a) => {
                let ghost am = a.model();
                proof {
                    lemma_stack_model_drop(undo0);
                    assert(self.undo_stack@ =~= undo0.drop_last());
                    assert(stack_model(undo0).last() == am);
                }
                self.undo_action(&a);
                proof {
                    lemma_undo_then_redo(doc0, am);
                    lemma_redo_chain_push(self.doc(), stack_model(redo0), am, doc0);
                    lemma_stack_model_push(redo0, a);
                }
                self.redo_stack.push(a);
            },
        }
    }

    /// Replays the most recently undone action and moves it back to the
    /// undo stack; with an empty redo stack this is a no-op. The base
    /// document and the edited document are both unchanged.
    pub fn redo(&mut self)
        requires
            old(self).wf(),
            old(self).history_wf(),
        ensures
            final(self).wf(),
            final(self).history_wf(),
            final(self).base_doc() == old(self).base_doc(),
            final(self).edited_doc() == old(self).edited_doc(),
            old(self).redo_models().len() == 0 ==> final(self).doc() == old(self).doc()
                && final(self).undo_models() == old(self).undo_models() && final(self).redo_models()
                == old(self).redo_models() && final(self).cursor_x == old(self).cursor_x
                && final(self).cursor_y == old(self).cursor_y
                && final(self).sel_x == old(self).sel_x
                && final(self).sel_y == old(self).sel_y,
            old(self).redo_models().len() > 0 ==> {
                &&& final(self).doc() == redo_step(old(self).doc(), old(self).redo_models().last())
                &&& final(self).redo_models() == old(self).redo_models().drop_last()
                &&& final(self).undo_models() == old(self).undo_models().push(
                    old(self).redo_models().last(),
                )
                &&& final(self).cursor_y as int == clamp_line(
                    final(self).doc(),
                    old(self).cursor_y as int,
                )
                &&& final(self).cursor_x as int == clamp_col(
                    final(self).doc(),
                    final(self).cursor_y as int,
                    old(self).cursor_x as int,
                )
                &&& final(self).sel_y as int == clamp_line(final(self).doc(), old(self).sel_y as int)
                &&& final(self).sel_x as int == clamp_col(
                    final(self).doc(),
                    final(self).sel_y as int,
                    old(self).sel_x as int,
                )
            },
            final(self).max_cursor_x == old(self).max_cursor_x,
            final(self).is_dirty == old(self).is_dirty,
            final(self).name == old(self).name,
    {
        let ghost doc0 = self.doc();
        let ghost undo0 = self.undo_stack@;
        let ghost redo0 = self.redo_stack@;
        let popped = self.redo_stack.pop();
        match popped {
            None => {},
            Some(a) => {
                let ghost am = a.model();
                proof {
                    lemma_stack_model_drop(redo0);
                    assert(self.redo_stack@ =~= redo0.drop_last());
                    assert(stack_model(redo0).last() == am);
                }
                self.redo_action(&a);
                proof {
                    lemma_redo_then_undo(doc0, am);
                    lemma_undo_chain_push(self.doc(), stack_model(undo0), am, doc0);
                    lemma_stack_model_push(undo0, a);
                }
                self.undo_stack.push(a);
            },
        }
    }

    /// Acknowledges a completed save: the dirty flag is cleared and nothing
    /// else changes. Writing the lines out is the caller's work; a failed
    /// save simply never acknowledges.
    pub fn mark_saved(&mut self)
        ensures
            !final(self).is_dirty,
            final(self).contents == old(self).contents,
            final(self).undo_stack == old(self).undo_stack,
            final(self).redo_stack == old(self).redo_stack,
            final(self).cursor_x == old(self).cursor_x,
            final(self).cursor_y == old(self).cursor_y,
            final(self).sel_x == old(self).sel_x,
            final(self).sel_y == old(self).sel_y,
            final(self).max_cursor_x == old(self).max_cursor_x,
            final(self).name == old(self).name,
            old(self).wf() ==> final(self).wf(),
    {
        self.is_dirty = false;
    }

    /// The grapheme-wise successor of `(x, y)`: right one cluster, or to
    /// the start of the next line, saturating at the end of the document.
    pub fn next_char(&self, x: usize, y: usize) -> (r: (usize, usize))
        requires
            self.wf(),
            pos_valid(self.doc(), x as int, y as int),
        ensures
            (r.0 as int, r.1 as int) == next_char_spec(self.doc(), x as int, y as int),
            pos_valid(self.doc(), r.0 as int, r.1 as int),
    {
        if x < self.contents[y].len() {
            (x + 1, y)
        } else if y < self.contents.len() - 1 {
            (0, y + 1)
        } else {
            (x, y)
        }
    }

    /// The grapheme-wise predecessor of `(x, y)`: left one cluster, or to
    /// the end of the previous line, saturating at the start of the
    /// document.
    pub fn prev_char(&self, x: usize, y: usize) -> (r: (usize, usize))
        requires
            self.wf(),
            pos_valid(self.doc(), x as int, y as int),
        ensures
            (r.0 as int, r.1 as int) == prev_char_spec(self.doc(), x as int, y as int),
            pos_valid(self.doc(), r.0 as int, r.1 as int),
            r.1 < y || (r.1 == y && r.0 <= x),
    {
        if x > 0 {
            (x - 1, y)
        } else if y > 0 {
            (self.contents[y - 1].len(), y - 1)
        } else {
            (x, y)
        }
    }

    /// Collapses the selection anchor onto the cursor unless the caller
    /// asked to extend the existing selection.
    pub fn set_selection(&mut self, extend_selection: bool)
        ensures
            !extend_selection ==> final(self).sel_x == old(self).cursor_x && final(self).sel_y
                == old(self).cursor_y,
            extend_selection ==> final(self).sel_x == old(self).sel_x && final(self).sel_y == old(
                self,
            ).sel_y,
            final(self).contents == old(self).contents,
            final(self).cursor_x == old(self).cursor_x,
            final(self).cursor_y == old(self).cursor_y,
            final(self).max_cursor_x == old(self).max_cursor_x,
            final(self).undo_stack == old(self).undo_stack,
            final(self).redo_stack == old(self).redo_stack,
            final(self).is_dirty == old(self).is_dirty,
            final(self).name == old(self).name,
            old(self).wf() ==> final(self).wf(),
    {
        if !extend_selection {
            self.sel_x = self.cursor_x;
            self.sel_y = self.cursor_y;
        }
    }

    /// Selects the whole document: the anchor moves to the start, the
    /// cursor to the end of the last line.
    pub fn select_all(&mut self)
        requires
            old(self).wf(),
        ensures
            final(self).wf(),
            final(self).sel_x == 0 && final(self).sel_y == 0,
            final(self).cursor_y as int == old(self).doc().len() - 1,
            final(self).cursor_x as int == old(self).doc().last().len(),
            final(self).contents == old(self).contents,
            final(self).max_cursor_x == old(self).max_cursor_x,
            final(self).undo_stack == old(self).undo_stack,
            final(self).redo_stack == old(self).redo_stack,
            final(self).is_dirty == old(self).is_dirty,
            final(self).name == old(self).name,
    {
        self.sel_y = 0;
        self.sel_x = 0;
        self.cursor_y = self.contents.len() - 1;
        self.cursor_x = self.contents[self.cursor_y].len();
        self.set_selection(true);
    }

    /// Selects line `line` whole: the anchor at its start, the cursor at
    /// its end. A line index past the document selects the last line.
    pub fn select_line(&mut self, line: usize)
        requires
            old(self).wf(),
        ensures
            final(self).wf(),
            final(self).cursor_y as int == clamp_line(old(self).doc(), line as int),
            final(self).sel_y == final(self).cursor_y,
            final(self).cursor_x as int == old(self).doc()[final(self).cursor_y as int].len(),
            final(self).sel_x == 0,
            final(self).contents == old(self).contents,
            final(self).max_cursor_x == old(self).max_cursor_x,
            final(self).undo_stack == old(self).undo_stack,
            final(self).redo_stack == old(self).redo_stack,
            final(self).is_dirty == old(self).is_dirty,
            final(self).name == old(self).name,
    {
        let last = self.contents.len() - 1;
        self.cursor_y = if line < last {
            line
        } else {
            last
        };
        self.sel_y = self.cursor_y;
        self.cursor_x = self.contents[self.sel_y].len();
        self.sel_x = 0;
    }

    /// The selection's corners in document order: the earlier position
    /// first, ordered lexicographically by `(y, x)`, whichever of the
    /// cursor and the anchor comes first.
    pub fn get_selection(&self) -> (r: (usize, usize, usize, usize))
        requires
            self.wf(),
        ensures
            (self.sel_y > self.cursor_y || (self.sel_y == self.cursor_y && self.sel_x
                > self.cursor_x)) ==> r == (self.cursor_x, self.cursor_y, self.sel_x, self.sel_y),
            !(self.sel_y > self.cursor_y || (self.sel_y == self.cursor_y && self.sel_x
                > self.cursor_x)) ==> r == (self.sel_x, self.sel_y, self.cursor_x, self.cursor_y),
            r.1 < r.3 || (r.1 == r.3 && r.0 <= r.2),
            span_valid(self.doc(), r.0 as int, r.1 as int, r.2 as int, r.3 as int),
    {
        if self.sel_y > self.cursor_y || self.sel_y == self.cursor_y && self.sel_x > self.cursor_x
        {
            return (self.cursor_x, self.cursor_y, self.sel_x, self.sel_y);
        }
        (self.sel_x, self.sel_y, self.cursor_x, self.cursor_y)
    }

    /// Moves the cursor up `num` lines, clamped at the first line; the
    /// column follows the sticky-column rule and the remembered column is
    /// left alone.
    pub fn cursor_up(&mut self, num: usize, extend_selection: bool)
        requires
            old(self).wf(),
        ensures
            final(self).wf(),
            final(self).cursor_y as int == if num <= old(self).cursor_y {
                old(self).cursor_y - num
            } else {
                0
            },
            final(self).cursor_x as int == sticky_col(
                old(self).doc()[final(self).cursor_y as int].len() as int,
                old(self).cursor_x as int,
                old(self).max_cursor_x as int,
            ),
            final(self).max_cursor_x == old(self).max_cursor_x,
            !extend_selection ==> final(self).sel_x == final(self).cursor_x && final(self).sel_y
                == final(self).cursor_y,
            extend_selection ==> final(self).sel_x == old(self).sel_x && final(self).sel_y == old(
                self,
            ).sel_y,
            final(self).contents == old(self).contents,
            final(self).undo_stack == old(self).undo_stack,
            final(self).redo_stack == old(self).redo_stack,
            final(self).is_dirty == old(self).is_dirty,
            final(self).name == old(self).name,
            old(self).history_wf() ==> final(self).history_wf(),
    {
        self.cursor_y = if num <= self.cursor_y {
            self.cursor_y - num
        } else {
            0
        };
        let ll = self.contents[self.cursor_y].len();
        let a = if self.cursor_x < ll {
            self.cursor_x
        } else {
            ll
        };
        let b = if self.max_cursor_x < ll {
            self.max_cursor_x
        } else {
            ll
        };
        self.cursor_x = if a > b {
            a
        } else {
            b
        };
        self.set_selection(extend_selection);
    }

    /// Moves the cursor down `num` lines, clamped at the last line; the
    /// column follows the sticky-column rule and the remembered column is
    /// left alone.
    pub fn cursor_down(&mut self, num: usize, extend_selection: bool)
        requires
            old(self).wf(),
        ensures
            final(self).wf(),
            final(self).cursor_y as int == if old(self).cursor_y + num <= old(self).doc().len()
                - 1 {
                old(self).cursor_y + num
            } else {
                old(self).doc().len() - 1
            },
            final(self).cursor_x as int == sticky_col(
                old(self).doc()[final(self).cursor_y as int].len() as int,
                old(self).cursor_x as int,
                old(self).max_cursor_x as int,
            ),
            final(self).max_cursor_x == old(self).max_cursor_x,
            !extend_selection ==> final(self).sel_x == final(self).cursor_x && final(self).sel_y
                == final(self).cursor_y,
            extend_selection ==> final(self).sel_x == old(self).sel_x && final(self).sel_y == old(
                self,
            ).sel_y,
            final(self).contents == old(self).contents,
            final(self).undo_stack == old(self).undo_stack,
            final(self).redo_stack == old(self).redo_stack,
            final(self).is_dirty == old(self).is_dirty,
            final(self).name == old(self).name,
            old(self).history_wf() ==> final(self).history_wf(),
    {
        let last = self.contents.len() - 1;
        self.cursor_y = if num <= last - self.cursor_y {
            self.cursor_y + num
        } else {
            last
        };
        let ll = self.contents[self.cursor_y].len();
        let a = if self.cursor_x < ll {
            self.cursor_x
        } else {
            ll
        };
        let b = if self.max_cursor_x < ll {
            self.max_cursor_x
        } else {
            ll
        };
        self.cursor_x = if a > b {
            a
        } else {
            b
        };
        self.set_selection(extend_selection);
    }

    /// Moves the cursor one grapheme cluster left, wrapping to the end of
    /// the previous line; the remembered column follows the cursor.
    pub fn cursor_left(&mut self, extend_selection: bool)
        requires
            old(self).wf(),
        ensures
            final(self).wf(),
            (final(self).cursor_x as int, final(self).cursor_y as int) == prev_char_spec(
                old(self).doc(),
                old(self).cursor_x as int,
                old(self).cursor_y as int,
            ),
            final(self).max_cursor_x == final(self).cursor_x,
            !extend_selection ==> final(self).sel_x == final(self).cursor_x && final(self).sel_y
                == final(self).cursor_y,
            extend_selection ==> final(self).sel_x == old(self).sel_x && final(self).sel_y == old(
                self,
            ).sel_y,
            final(self).contents == old(self).contents,
            final(self).undo_stack == old(self).undo_stack,
            final(self).redo_stack == old(self).redo_stack,
            final(self).is_dirty == old(self).is_dirty,
            final(self).name == old(self).name,
            old(self).history_wf() ==> final(self).history_wf(),
    {
        let (x, y) = self.prev_char(self.cursor_x, self.cursor_y);
        self.cursor_x = x;
        self.cursor_y = y;
        self.max_cursor_x = self.cursor_x;
        self.set_selection(extend_selection);
    }

    /// Moves the cursor one grapheme cluster right, wrapping to the start
    /// of the next line; the remembered column follows the cursor.
    pub fn cursor_right(&mut self, extend_selection: bool)
        requires
            old(self).wf(),
        ensures
            final(self).wf(),
            (final(self).cursor_x as int, final(self).cursor_y as int) == next_char_spec(
                old(self).doc(),
                old(self).cursor_x as int,
                old(self).cursor_y as int,
            ),
            final(self).max_cursor_x == final(self).cursor_x,
            !extend_selection ==> final(self).sel_x == final(self).cursor_x && final(self).sel_y
                == final(self).cursor_y,
            extend_selection ==> final(self).sel_x == old(self).sel_x && final(self).sel_y == old(
                self,
            ).sel_y,
            final(self).contents == old(self).contents,
            final(self).undo_stack == old(self).undo_stack,
            final(self).redo_stack == old(self).redo_stack,
            final(self).is_dirty == old(self).is_dirty,
            final(self).name == old(self).name,
            old(self).history_wf() ==> final(self).history_wf(),
    {
        let (x, y) = self.next_char(self.cursor_x, self.cursor_y);
        self.cursor_x = x;
        self.cursor_y = y;
        self.max_cursor_x = self.cursor_x;
        self.set_selection(extend_selection);
    }

    /// The word bounds of line `y`, converted to grapheme columns.
    #[verifier::loop_isolation(false)]
    fn line_word_columns(&self, y: usize) -> (cols: Vec<usize>)
        requires
            self.wf(),
            y < self.doc().len(),
        ensures
            cols@.len() == word_cols(self.doc()[y as int]).len(),
            forall|k: int|
                0 <= k < cols@.len() ==> cols@[k] as int == word_cols(self.doc()[y as int])[k]
                    && cols@[k] <= self.doc()[y as int].len(),
    {
        let line = self.line_string(y);
        let bounds = word_bound_indices(line.as_str());
        let ghost lm = self.doc()[y as int];
        let ghost cw = word_cols(lm);
        let mut cols: Vec<usize> = Vec::new();
        let mut j: usize = 0;
        while j < bounds.len()
            invariant
                j <= bounds@.len(),
                cols@.len() == j,
                forall|k: int| 0 <= k < j ==> cols@[k] as int == cw[k] && cols@[k] <= lm.len(),
            decreases bounds@.len() - j,
        {
            let c = byte_to_column(&self.contents[y], bounds[j]);
            proof {
                assert(self.contents@[y as int].deep_view() == lm);
                assert(bounds@[j as int] == word_bounds_of(crate::text::line_text(lm))[j as int]);
                assert(cw[j as int] == col_of_byte(
                    lm,
                    word_bounds_of(crate::text::line_text(lm))[j as int] as int,
                ));
            }
            cols.push(c);
            j += 1;
        }
        proof {
            assert(bounds@.len() == cw.len());
        }
        cols
    }

    /// The word-boundary position after `(x, y)`: the first word bound on
    /// the line past column `x`, in grapheme columns (the line's end
    /// counting as a bound), else the start of the next line, saturating at
    /// the end of the document.
    #[verifier::loop_isolation(false)]
    pub fn next_word(&self, x: usize, y: usize) -> (r: (usize, usize))
        requires
            self.wf(),
            pos_valid(self.doc(), x as int, y as int),
        ensures
            ({
                let line = self.doc()[y as int];
                let cols = word_cols(line).push(line.len() as int);
                match first_bound_after(cols, x as int) {
                    Some(v) => r.1 == y && r.0 as int == v,
                    None => if y < self.doc().len() - 1 {
                        r.0 == 0 && r.1 == y + 1
                    } else {
                        r.0 == x && r.1 == y
                    },
                }
            }),
            pos_valid(self.doc(), r.0 as int, r.1 as int),
    {
        let llen = self.line_len(y);
        let ghost lm = self.doc()[y as int];
        let ghost ci = word_cols(lm).push(lm.len() as int);
        let mut cols = self.line_word_columns(y);
        cols.push(llen);
        proof {
            assert(cols@.len() == ci.len());
            assert(forall|k: int| 0 <= k < ci.len() ==> cols@[k] as int == ci[k] && cols@[k]
                <= llen);
            assert(ci.skip(0) =~= ci);
        }
        let mut i: usize = 0;
        while i < cols.len()
            invariant
                i <= ci.len(),
                first_bound_after(ci, x as int) == first_bound_after(ci.skip(i as int), x as int),
            decreases ci.len() - i,
        {
            let b = cols[i];
            if b > x {
                proof {
                    assert(ci.skip(i as int)[0] == ci[i as int]);
                    assert(first_bound_after(ci, x as int) == Some(b as int));
                }
                return (b, y);
            }
            proof {
                assert(ci.skip(i as int)[0] == ci[i as int]);
                assert(ci.skip(i as int).skip(1) =~= ci.skip(i + 1));
            }
            i += 1;
        }
        proof {
            assert(ci.skip(ci.len() as int) =~= Seq::<int>::empty());
            assert(first_bound_after(ci, x as int) is None);
        }
        if y < self.contents.len() - 1 {
            return (0, y + 1);
        }
        (x, y)
    }

    /// The word-boundary position before `(x, y)`: the last word bound on
    /// the line before column `x`, in grapheme columns, else the end of the
    /// previous line, saturating at the start of the document.
    #[verifier::loop_isolation(false)]
    pub fn prev_word(&self, x: usize, y: usize) -> (r: (usize, usize))
        requires
            self.wf(),
            pos_valid(self.doc(), x as int, y as int),
        ensures
            ({
                let line = self.doc()[y as int];
                match last_bound_before(word_cols(line), x as int) {
                    Some(v) => r.1 == y && r.0 as int == v,
                    None => if y > 0 {
                        r.0 as int == self.doc()[y - 1].len() && r.1 == y - 1
                    } else {
                        r.0 == x && r.1 == y
                    },
                }
            }),
            pos_valid(self.doc(), r.0 as int, r.1 as int),
    {
        let ghost lm = self.doc()[y as int];
        let ghost ci = word_cols(lm);
        let cols = self.line_word_columns(y);
        proof {
            assert(cols@.len() == ci.len());
            assert(ci.take(ci.len() as int) =~= ci);
        }
        let mut i: usize = cols.len();
        while i > 0
            invariant
                i <= ci.len(),
                last_bound_before(ci, x as int) == last_bound_before(ci.take(i as int), x as int),
            decreases i,
        {
            let b = cols[i - 1];
            if b < x {
                proof {
                    assert(ci.take(i as int).last() == ci[i - 1]);
                    assert(last_bound_before(ci, x as int) == Some(b as int));
                }
                return (b, y);
            }
            proof {
                assert(ci.take(i as int).last() == ci[i - 1]);
                assert(ci.take(i as int).drop_last() =~= ci.take(i - 1));
            }
            i -= 1;
        }
        proof {
            assert(ci.take(0) =~= Seq::<int>::empty());
            assert(last_bound_before(ci, x as int) is None);
        }
        if y > 0 {
            return (self.contents[y - 1].len(), y - 1);
        }
        (x, y)
    }

    /// Deletes one grapheme cluster before the cursor, wrapping a line
    /// boundary into a line join; the cursor moves to the deleted span's
    /// start and the deletion is recorded on the undo stack. With the caret
    /// already at the document start there is nothing before it to delete:
    /// nothing changes, nothing is recorded and the buffer is not dirtied.
    pub fn remove_char(&mut self)
        requires
            old(self).wf(),
            old(self).history_wf(),
        ensures
            final(self).wf(),
            final(self).history_wf(),
            ({
                let (px, py) = prev_char_spec(
                    old(self).doc(),
                    old(self).cursor_x as int,
                    old(self).cursor_y as int,
                );
                if px == old(self).cursor_x && py == old(self).cursor_y {
                    &&& final(self).doc() == old(self).doc()
                    &&& final(self).cursor_x == old(self).cursor_x
                    &&& final(self).cursor_y == old(self).cursor_y
                    &&& final(self).sel_x == old(self).sel_x
                    &&& final(self).sel_y == old(self).sel_y
                    &&& final(self).undo_models() == old(self).undo_models()
                    &&& final(self).redo_models() == old(self).redo_models()
                    &&& final(self).is_dirty == old(self).is_dirty
                } else {
                    &&& final(self).doc() == splice_delete(
                        old(self).doc(),
                        px,
                        py,
                        old(self).cursor_x as int,
                        old(self).cursor_y as int,
                    )
                    &&& final(self).cursor_x as int == px
                    &&& final(self).cursor_y as int == py
                    &&& final(self).sel_y as int == clamp_line(
                        final(self).doc(),
                        old(self).sel_y as int,
                    )
                    &&& final(self).sel_x as int == clamp_col(
                        final(self).doc(),
                        final(self).sel_y as int,
                        old(self).sel_x as int,
                    )
                    &&& final(self).undo_models() == old(self).undo_models().push(
                        ActionSpec::Delete {
                            x1: px,
                            y1: py,
                            x2: old(self).cursor_x as int,
                            y2: old(self).cursor_y as int,
                            text: extract_block(
                                old(self).doc(),
                                px,
                                py,
                                old(self).cursor_x as int,
                                old(self).cursor_y as int,
                            ),
                        },
                    )
                    &&& final(self).redo_models() == Seq::<ActionSpec>::empty()
                    &&& final(self).is_dirty
                }
            }),
            final(self).base_doc() == old(self).base_doc(),
            final(self).max_cursor_x == old(self).max_cursor_x,
            final(self).name == old(self).name,
    {
        let (px, py) = self.prev_char(self.cursor_x, self.cursor_y);
        if px == self.cursor_x && py == self.cursor_y {
            return ;
        }
        let ghost doc0 = self.doc();
        let cx = self.cursor_x;
        let cy = self.cursor_y;
        let _removed = self.delete_text(px, py, cx, cy);
        proof {
            lemma_delete_then_insert(doc0, px as int, py as int, cx as int, cy as int);
        }
        self.cursor_x = px;
        self.cursor_y = py;
    }

    /// Deletes the selected span and collapses the cursor to its start;
    /// with an empty selection, deletes one cluster before the cursor, and
    /// with the caret already at the document start does nothing at all.
    pub fn remove_selection(&mut self)
        requires
            old(self).wf(),
            old(self).history_wf(),
        ensures
            final(self).wf(),
            final(self).history_wf(),
            ({
                let (x1, y1, x2, y2) = old(self).sel_span();
                if x1 == x2 && y1 == y2 {
                    let (px, py) = prev_char_spec(old(self).doc(), x1, y1);
                    if px == x1 && py == y1 {
                        &&& final(self).doc() == old(self).doc()
                        &&& final(self).cursor_x as int == x1
                        &&& final(self).cursor_y as int == y1
                        &&& final(self).undo_models() == old(self).undo_models()
                        &&& final(self).redo_models() == old(self).redo_models()
                        &&& final(self).is_dirty == old(self).is_dirty
                    } else {
                        &&& final(self).doc() == splice_delete(old(self).doc(), px, py, x1, y1)
                        &&& final(self).cursor_x as int == px
                        &&& final(self).cursor_y as int == py
                        &&& final(self).undo_models() == old(self).undo_models().push(
                            ActionSpec::Delete {
                                x1: px,
                                y1: py,
                                x2: x1,
                                y2: y1,
                                text: extract_block(old(self).doc(), px, py, x1, y1),
                            },
                        )
                        &&& final(self).redo_models() == Seq::<ActionSpec>::empty()
                        &&& final(self).is_dirty
                    }
                } else {
                    &&& final(self).doc() == splice_delete(old(self).doc(), x1, y1, x2, y2)
                    &&& final(self).cursor_x as int == x1
                    &&& final(self).cursor_y as int == y1
                    &&& final(self).undo_models() == old(self).undo_models().push(
                        ActionSpec::Delete {
                            x1: x1,
                            y1: y1,
                            x2: x2,
                            y2: y2,
                            text: extract_block(old(self).doc(), x1, y1, x2, y2),
                        },
                    )
                    &&& final(self).redo_models() == Seq::<ActionSpec>::empty()
                    &&& final(self).is_dirty
                }
            }),
            final(self).sel_x == final(self).cursor_x,
            final(self).sel_y == final(self).cursor_y,
            final(self).base_doc() == old(self).base_doc(),
            final(self).max_cursor_x == old(self).max_cursor_x,
            final(self).name == old(self).name,
    {
        let (x1, y1, x2, y2) = self.get_selection();
        if x1 == x2 && y1 == y2 {
            proof {
                assert(x1 == old(self).cursor_x && y1 == old(self).cursor_y);
            }
            self.remove_char();
        } else {
            let ghost doc0 = self.doc();
            let _removed = self.delete_text(x1, y1, x2, y2);
            proof {
                lemma_delete_then_insert(doc0, x1 as int, y1 as int, x2 as int, y2 as int);
            }
            self.cursor_x = x1;
            self.cursor_y = y1;
        }
        self.set_selection(false);
    }

    /// Splits the current line at the cursor: the text before the cursor
    /// stays, the text after it moves to a new line just below, and the
    /// cursor moves to that line's start. Recorded on the undo stack as an
    /// insertion of a line break.
    pub fn break_line(&mut self)
        requires
            old(self).wf(),
            old(self).history_wf(),
        ensures
            final(self).wf(),
            final(self).history_wf(),
            final(self).doc() == splice_insert(
                old(self).doc(),
                old(self).cursor_x as int,
                old(self).cursor_y as int,
                seq![Seq::<Seq<char>>::empty(), Seq::<Seq<char>>::empty()],
            ),
            final(self).cursor_x == 0,
            final(self).cursor_y == old(self).cursor_y + 1,
            final(self).max_cursor_x == 0,
            final(self).sel_x == final(self).cursor_x,
            final(self).sel_y == final(self).cursor_y,
            final(self).undo_models() == old(self).undo_models().push(
                ActionSpec::Insert {
                    x1: old(self).cursor_x as int,
                    y1: old(self).cursor_y as int,
                    x2: 0,
                    y2: old(self).cursor_y + 1,
                    text: seq![Seq::<Seq<char>>::empty(), Seq::<Seq<char>>::empty()],
                },
            ),
            final(self).redo_models() == Seq::<ActionSpec>::empty(),
            final(self).base_doc() == old(self).base_doc(),
            final(self).is_dirty,
            final(self).name == old(self).name,
    {
        let mut break_lines: Vec<Vec<String>> = Vec::new();
        break_lines.push(Vec::new());
        break_lines.push(Vec::new());
        let block = TextBlock { lines: break_lines };
        proof {
            assert(block.model() =~~= seq![Seq::<Seq<char>>::empty(), Seq::<Seq<char>>::empty()]);
        }
        let x = self.cursor_x;
        let y = self.cursor_y;
        let ghost doc0 = self.doc();
        let ghost bm = block.model();
        let ghost undo0 = self.undo_stack@;
        let end = splice_block_at(&mut self.contents, x, y, &block);
        proof {
            lemma_insert_then_delete(doc0, x as int, y as int, bm);
        }
        let action = Action::Insert { x1: x, y1: y, x2: end.0, y2: end.1, text: block };
        let ghost am = action.model();
        proof {
            lemma_stack_model_push(undo0, action);
            assert(action_wf(am));
            assert(undo_ok(self.doc(), am));
            assert(undo_step(self.doc(), am) == doc0);
            lemma_undo_chain_push(self.doc(), stack_model(undo0), am, doc0);
        }
        self.undo_stack.push(action);
        self.redo_stack = Vec::new();
        self.is_dirty = true;
        proof {
            assert(self.redo_models() =~= Seq::<ActionSpec>::empty());
        }
        self.cursor_y = y + 1;
        self.cursor_x = 0;
        self.max_cursor_x = 0;
        self.set_selection(false);
    }

    /// Replaces the selection with `text` as one undoable action and puts
    /// the caret just after the inserted text; with an empty selection this
    /// is a plain insertion at the caret.
    pub fn action_insert_text(&mut self, text: String)
        requires
            old(self).wf(),
            old(self).history_wf(),
        ensures
            final(self).wf(),
            final(self).history_wf(),
            ({
                let (x1, y1, x2, y2) = old(self).sel_span();
                &&& final(self).doc() == splice_insert(
                    splice_delete(old(self).doc(), x1, y1, x2, y2),
                    x1,
                    y1,
                    text_block_spec(text@),
                )
                &&& final(self).cursor_x as int == insert_end_x(x1, text_block_spec(text@))
                &&& final(self).cursor_y as int == insert_end_y(y1, text_block_spec(text@))
                &&& final(self).undo_models() == old(self).undo_models().push(
                    ActionSpec::Replace {
                        x1: x1,
                        y1: y1,
                        dx2: x2,
                        dy2: y2,
                        ix2: insert_end_x(x1, text_block_spec(text@)),
                        iy2: insert_end_y(y1, text_block_spec(text@)),
                        deleted: extract_block(old(self).doc(), x1, y1, x2, y2),
                        inserted: text_block_spec(text@),
                    },
                )
            }),
            final(self).sel_x == final(self).cursor_x,
            final(self).sel_y == final(self).cursor_y,
            final(self).redo_models() == Seq::<ActionSpec>::empty(),
            final(self).base_doc() == old(self).base_doc(),
            final(self).is_dirty,
            final(self).max_cursor_x == old(self).max_cursor_x,
            final(self).name == old(self).name,
    {
        let (x1, y1, x2, y2) = self.get_selection();
        let end = self.replace_text(x1, y1, x2, y2, text);
        self.cursor_x = end.0;
        self.cursor_y = end.1;
        self.set_selection(false);
    }

    /// The text the selection covers, its lines joined by newlines; the
    /// buffer is left untouched.
    pub fn selection_text(&self) -> (r: String)
        requires
            self.wf(),
        ensures
            ({
                let (x1, y1, x2, y2) = self.sel_span();
                r@ == block_text(extract_block(self.doc(), x1, y1, x2, y2))
            }),
    {
        let (x1, y1, x2, y2) = self.get_selection();
        let block = extract_span(&self.contents, x1, y1, x2, y2);
        block_to_string(&block)
    }

    /// The first line at or after `from` whose text starts with `prefix`;
    /// `from` itself when no line matches.
    #[verifier::loop_isolation(false)]
    pub fn find_line_with_prefix(&self, from: usize, prefix: &str) -> (r: usize)
        requires
            self.wf(),
            from < self.doc().len(),
        ensures
            r < self.doc().len(),
            ({
                let hit = exists|i: int|
                    from <= i < self.doc().len() && text_starts_with(
                        crate::text::line_text(self.doc()[i]),
                        prefix@,
                    );
                if hit {
                    &&& from <= r
                    &&& text_starts_with(crate::text::line_text(self.doc()[r as int]), prefix@)
                    &&& forall|j: int|
                        from <= j < r ==> !text_starts_with(
                            crate::text::line_text(self.doc()[j]),
                            prefix@,
                        )
                } else {
                    r == from
                }
            }),
    {
        let n = self.len();
        let mut i: usize = from;
        while i < n
            invariant
                from <= i <= n,
                forall|j: int|
                    from <= j < i ==> !text_starts_with(
                        crate::text::line_text(self.doc()[j]),
                        prefix@,
                    ),
            decreases n - i,
        {
            let line = self.line_string(i);
            if str_has_prefix(line.as_str(), prefix) {
                return i;
            }
            i += 1;
        }
        from
    }
}

/// Whether `s` begins with `p`.
pub open spec fn text_starts_with(s: Seq<char>, p: Seq<char>) -> bool {
    s.len() >= p.len() && s.take(p.len() as int) == p
}

/// Compares a string's leading characters against a prefix.
#[verifier::loop_isolation(false)]
pub fn str_has_prefix(s: &str, p: &str) -> (r: bool)
    ensures
        r == text_starts_with(s@, p@),
{
    let sn = s.unicode_len();
    let pn = p.unicode_len();
    if sn < pn {
        proof {
            assert(!text_starts_with(s@, p@));
        }
        return false;
    }
    let mut i: usize = 0;
    while i < pn
        invariant
            i <= pn,
            pn <= sn,
            sn == s@.len(),
            pn == p@.len(),
            forall|j: int| 0 <= j < i ==> s@[j] == p@[j],
        decreases pn - i,
    {
        if s.get_char(i) != p.get_char(i) {
            proof {
                assert(s@.take(p@.len() as int)[i as int] != p@[i as int]);
            }
            return false;
        }
        i += 1;
    }
    proof {
        assert(s@.take(p@.len() as int) =~= p@);
    }
    true
}

} // verus!
