//! Executable primitives on rows of grapheme cells.
//!
//! A row is a `Vec<String>` whose elements are single grapheme clusters.
//! These functions copy row ranges, join rows back into strings, and carry
//! out the splice operations of `edits` on the concrete representation.

use crate::edits::{
    extract_block, insert_end_x, insert_end_y, lemma_extract_parts, lemma_insert_then_delete,
    lemma_splice_delete_parts, lemma_splice_insert_parts, pos_valid, span_valid, splice_delete,
    splice_insert,
};
use crate::text::{
    block_text, lemma_block_text_take_step, lemma_line_text_take_step, line_text, TextBlock,
};
use vstd::prelude::*;
use vstd::string::*;

verus! {

/// Appends the cells `src[from..to]` onto `dst`, cloning each cell.
#[verifier::loop_isolation(false)]
pub(crate) fn append_cells_range(dst: &mut Vec<String>, src: &Vec<String>, from: usize, to: usize)
    requires
        from <= to <= src@.len(),
    ensures
        final(dst).deep_view() == old(dst).deep_view() + src.deep_view().subrange(
            from as int,
            to as int,
        ),
{
    let ghost base = dst.deep_view();
    let mut i: usize = from;
    while i < to
        invariant
            from <= i <= to,
            dst.deep_view() == base + src.deep_view().subrange(from as int, i as int),
        decreases to - i,
    {
        let ghost prev = dst.deep_view();
        dst.push(src[i].clone());
        proof {
            assert(dst.deep_view() =~~= prev.push(src.deep_view()[i as int]));
            assert(dst.deep_view() =~~= base + src.deep_view().subrange(from as int, i + 1));
        }
        i += 1;
    }
}

/// A fresh copy of a whole row.
pub(crate) fn clone_cells(src: &Vec<String>) -> (r: Vec<String>)
    ensures
        r.deep_view() == src.deep_view(),
{
    let mut r: Vec<String> = Vec::new();
    append_cells_range(&mut r, src, 0, src.len());
    proof {
        assert(r.deep_view() =~~= src.deep_view());
    }
    r
}

/// The text of a row: its grapheme clusters joined in order.
#[verifier::loop_isolation(false)]
pub(crate) fn line_to_string(cells: &Vec<String>) -> (r: String)
    ensures
        r@ == line_text(cells.deep_view()),
{
    let mut r = String::new();
    proof {
        assert(cells.deep_view().take(0) =~~= Seq::<Seq<char>>::empty());
    }
    let mut i: usize = 0;
    while i < cells.len()
        invariant
            i <= cells@.len(),
            r@ == line_text(cells.deep_view().take(i as int)),
        decreases cells@.len() - i,
    {
        r.append(cells[i].as_str());
        proof {
            lemma_line_text_take_step(cells.deep_view(), i as int);
        }
        i += 1;
    }
    proof {
        assert(cells.deep_view().take(cells@.len() as int) =~~= cells.deep_view());
    }
    r
}

/// The text of a block: its rows joined by newline characters.
#[verifier::loop_isolation(false)]
pub(crate) fn block_to_string(block: &TextBlock) -> (r: String)
    requires
        block.wf(),
    ensures
        r@ == block_text(block.model()),
{
    let mut r = line_to_string(&block.lines[0]);
    proof {
        assert(block.model().take(1).len() == 1);
        assert(block.model().take(1)[0] == block.model()[0]);
        assert(block.lines@[0].deep_view() == block.model()[0]);
        assert(r@ == block_text(block.model().take(1)));
    }
    let mut i: usize = 1;
    while i < block.lines.len()
        invariant
            1 <= i <= block.lines@.len(),
            r@ == block_text(block.model().take(i as int)),
        decreases block.lines@.len() - i,
    {
        let nl = "\n";
        proof {
            reveal_strlit("\n");
            assert(nl@ =~= seq!['\n']);
        }
        r.append(nl);
        let ls = line_to_string(&block.lines[i]);
        r.append(ls.as_str());
        proof {
            lemma_block_text_take_step(block.model(), i as int);
            assert(block.lines@[i as int].deep_view() == block.model()[i as int]);
        }
        i += 1;
    }
    proof {
        assert(block.model().take(block.lines@.len() as int) =~~= block.model());
    }
    r
}

/// Splices a block into the rows at position `(x, y)`: row `y` is split at
/// cell `x` and the block's rows are glued in between. Returns the position
/// just after the spliced text.
#[verifier::loop_isolation(false)]
pub(crate) fn splice_block_at(
    contents: &mut Vec<Vec<String>>,
    x: usize,
    y: usize,
    block: &TextBlock,
) -> (end: (usize, usize))
    requires
        block.wf(),
        pos_valid(old(contents).deep_view(), x as int, y as int),
    ensures
        final(contents).deep_view() == splice_insert(
            old(contents).deep_view(),
            x as int,
            y as int,
            block.model(),
        ),
        final(contents).deep_view().len() == old(contents).deep_view().len() + block.model().len()
            - 1,
        end.0 as int == insert_end_x(x as int, block.model()),
        end.1 as int == insert_end_y(y as int, block.model()),
        (end.1 as int) < final(contents).deep_view().len(),
        end.0 as int <= final(contents).deep_view()[end.1 as int].len(),
{
    let ghost doc0 = contents.deep_view();
    let ghost bm = block.model();
    let ghost tgt = splice_insert(doc0, x as int, y as int, bm);
    proof {
        lemma_splice_insert_parts(doc0, x as int, y as int, bm);
        lemma_insert_then_delete(doc0, x as int, y as int, bm);
    }
    let n = block.lines.len();
    let mut out: Vec<Vec<String>> = Vec::new();
    let mut i: usize = 0;
    while i < y
        invariant
            i <= y,
            out.deep_view() == tgt.take(i as int),
        decreases y - i,
    {
        out.push(clone_cells(&contents[i]));
        proof {
            assert(out.deep_view() =~~= tgt.take(i + 1));
        }
        i += 1;
    }
    let mut row: Vec<String> = Vec::new();
    append_cells_range(&mut row, &contents[y], 0, x);
    append_cells_range(&mut row, &block.lines[0], 0, block.lines[0].len());
    proof {
        assert(doc0[y as int].take(x as int) =~= doc0[y as int].subrange(0, x as int));
        assert(bm[0].subrange(0, block.lines@[0]@.len() as int) =~= bm[0]);
    }
    let end_x: usize;
    let end_y: usize;
    if n == 1 {
        end_x = row.len();
        append_cells_range(&mut row, &contents[y], x, contents[y].len());
        proof {
            assert(doc0[y as int].skip(x as int) =~= doc0[y as int].subrange(
                x as int,
                doc0[y as int].len() as int,
            ));
            assert(row.deep_view() =~= tgt[y as int]);
        }
        out.push(row);
        proof {
            assert(out.deep_view() =~~= tgt.take(y + 1));
        }
        end_y = y;
    } else {
        proof {
            assert(row.deep_view() =~= tgt[y as int]);
        }
        out.push(row);
        proof {
            assert(out.deep_view() =~~= tgt.take(y + 1));
        }
        let mut j: usize = 1;
        while j < n - 1
            invariant
                1 <= j <= n - 1,
                out.deep_view() == tgt.take(y + j),
            decreases n - 1 - j,
        {
            out.push(clone_cells(&block.lines[j]));
            proof {
                assert(out.deep_view() =~~= tgt.take(y + j + 1));
            }
            j += 1;
        }
        let mut lrow = clone_cells(&block.lines[n - 1]);
        end_x = lrow.len();
        append_cells_range(&mut lrow, &contents[y], x, contents[y].len());
        proof {
            assert(doc0[y as int].skip(x as int) =~= doc0[y as int].subrange(
                x as int,
                doc0[y as int].len() as int,
            ));
            assert(lrow.deep_view() =~= tgt[y + n - 1]);
        }
        out.push(lrow);
        proof {
            assert(out.deep_view() =~~= tgt.take(y + n));
            assert(out.len() == y + n);
        }
        end_y = y + (n - 1);
    }
    proof {
        assert(y < contents.len());
    }
    let mut k: usize = y + 1;
    while k < contents.len()
        invariant
            y + 1 <= k <= contents@.len(),
            out.deep_view() == tgt.take(k + n - 1),
        decreases contents@.len() - k,
    {
        out.push(clone_cells(&contents[k]));
        proof {
            assert(out.deep_view() =~~= tgt.take(k + n));
        }
        k += 1;
    }
    proof {
        assert(tgt.take(contents@.len() + n - 1) =~~= tgt);
    }
    *contents = out;
    (end_x, end_y)
}

/// The block of text occupying the span from `(x1, y1)` to `(x2, y2)`, as a
/// fresh copy.
#[verifier::loop_isolation(false)]
pub(crate) fn extract_span(
    contents: &Vec<Vec<String>>,
    x1: usize,
    y1: usize,
    x2: usize,
    y2: usize,
) -> (b: TextBlock)
    requires
        span_valid(contents.deep_view(), x1 as int, y1 as int, x2 as int, y2 as int),
    ensures
        b.wf(),
        b.model() == extract_block(contents.deep_view(), x1 as int, y1 as int, x2 as int, y2 as int),
{
    let ghost doc0 = contents.deep_view();
    let ghost ext = extract_block(doc0, x1 as int, y1 as int, x2 as int, y2 as int);
    proof {
        lemma_extract_parts(doc0, x1 as int, y1 as int, x2 as int, y2 as int);
    }
    let mut lines: Vec<Vec<String>> = Vec::new();
    if y1 == y2 {
        let mut row: Vec<String> = Vec::new();
        append_cells_range(&mut row, &contents[y1], x1, x2);
        proof {
            assert(row.deep_view() =~= doc0[y1 as int].subrange(x1 as int, x2 as int));
        }
        lines.push(row);
        proof {
            assert(lines.deep_view() =~~= ext);
        }
    } else {
        let mut row: Vec<String> = Vec::new();
        append_cells_range(&mut row, &contents[y1], x1, contents[y1].len());
        proof {
            assert(doc0[y1 as int].skip(x1 as int) =~= doc0[y1 as int].subrange(
                x1 as int,
                doc0[y1 as int].len() as int,
            ));
        }
        lines.push(row);
        proof {
            assert(lines.deep_view() =~~= ext.take(1));
        }
        let mut j: usize = y1 + 1;
        while j < y2
            invariant
                y1 + 1 <= j <= y2,
                lines.deep_view() == ext.take(j - y1),
            decreases y2 - j,
        {
            lines.push(clone_cells(&contents[j]));
            proof {
                assert(lines.deep_view() =~~= ext.take(j - y1 + 1));
            }
            j += 1;
        }
        let mut lrow: Vec<String> = Vec::new();
        append_cells_range(&mut lrow, &contents[y2], 0, x2);
        proof {
            assert(doc0[y2 as int].take(x2 as int) =~= doc0[y2 as int].subrange(0, x2 as int));
            assert(lrow.deep_view() =~= ext[y2 - y1]);
        }
        let ghost before_last = lines.deep_view();
        lines.push(lrow);
        proof {
            assert(lines.deep_view().len() == ext.len());
            assert forall|q: int| 0 <= q < ext.len() implies lines.deep_view()[q] =~= ext[q] by {
                if q < y2 - y1 {
                    assert(lines.deep_view()[q] == before_last[q]);
                    assert(before_last[q] == ext.take(y2 - y1)[q]);
                }
            }
            assert(lines.deep_view() =~~= ext);
        }
    }
    TextBlock { lines }
}

/// Deletes the span from `(x1, y1)` to `(x2, y2)` from the rows: what is
/// left of row `y1` joins what is left of row `y2`.
#[verifier::loop_isolation(false)]
pub(crate) fn splice_delete_at(
    contents: &mut Vec<Vec<String>>,
    x1: usize,
    y1: usize,
    x2: usize,
    y2: usize,
)
    requires
        span_valid(old(contents).deep_view(), x1 as int, y1 as int, x2 as int, y2 as int),
    ensures
        final(contents).deep_view() == splice_delete(
            old(contents).deep_view(),
            x1 as int,
            y1 as int,
            x2 as int,
            y2 as int,
        ),
        final(contents).deep_view().len() == old(contents).deep_view().len() - (y2 - y1),
        final(contents).deep_view().len() >= 1,
{
    let ghost doc0 = contents.deep_view();
    let ghost tgt = splice_delete(doc0, x1 as int, y1 as int, x2 as int, y2 as int);
    proof {
        lemma_splice_delete_parts(doc0, x1 as int, y1 as int, x2 as int, y2 as int);
    }
    let mut out: Vec<Vec<String>> = Vec::new();
    let mut i: usize = 0;
    while i < y1
        invariant
            i <= y1,
            out.deep_view() == tgt.take(i as int),
        decreases y1 - i,
    {
        out.push(clone_cells(&contents[i]));
        proof {
            assert(out.deep_view() =~~= tgt.take(i + 1));
        }
        i += 1;
    }
    let mut row: Vec<String> = Vec::new();
    append_cells_range(&mut row, &contents[y1], 0, x1);
    append_cells_range(&mut row, &contents[y2], x2, contents[y2].len());
    proof {
        assert(doc0[y1 as int].take(x1 as int) =~= doc0[y1 as int].subrange(0, x1 as int));
        assert(doc0[y2 as int].skip(x2 as int) =~= doc0[y2 as int].subrange(
            x2 as int,
            doc0[y2 as int].len() as int,
        ));
        assert(row.deep_view() =~= tgt[y1 as int]);
    }
    out.push(row);
    proof {
        assert(out.deep_view() =~~= tgt.take(y1 + 1));
    }
    proof {
        assert(y2 < contents.len());
    }
    let mut k: usize = y2 + 1;
    while k < contents.len()
        invariant
            y2 + 1 <= k <= contents@.len(),
            out.deep_view() == tgt.take(k - (y2 - y1)),
        decreases contents@.len() - k,
    {
        out.push(clone_cells(&contents[k]));
        proof {
            assert(out.deep_view() =~~= tgt.take(k + 1 - (y2 - y1)));
        }
        k += 1;
    }
    proof {
        assert(tgt.take(contents@.len() - (y2 - y1)) =~~= tgt);
    }
    *contents = out;
}

} // verus!
