//! The mathematical edit operations on a document.
//!
//! A document is a non-empty sequence of lines; a line is a sequence of
//! grapheme clusters; a cluster is a sequence of characters. Inserting a
//! block of text at a position and deleting a span are defined here as spec
//! functions, together with the laws that make the undo log sound: deleting
//! what an insertion added restores the document, and re-inserting what a
//! deletion removed restores it too.

use vstd::prelude::*;

verus! {

/// A position `(x, y)` lies in the document: on some line, at or before its
/// end. All x-coordinates are grapheme-cluster indices.
pub open spec fn pos_valid(doc: Seq<Seq<Seq<char>>>, x: int, y: int) -> bool {
    0 <= y < doc.len() && 0 <= x <= doc[y].len()
}

/// A half-open span from `(x1, y1)` to `(x2, y2)` lies in the document and
/// is ordered: `(y1, x1)` is lexicographically at or before `(y2, x2)`.
pub open spec fn span_valid(doc: Seq<Seq<Seq<char>>>, x1: int, y1: int, x2: int, y2: int) -> bool {
    &&& 0 <= y1 <= y2 < doc.len()
    &&& 0 <= x1 <= doc[y1].len()
    &&& 0 <= x2 <= doc[y2].len()
    &&& (y1 == y2 ==> x1 <= x2)
}

/// The rows a block contributes when spliced between a line prefix and a
/// line suffix: the prefix joins the block's first row, the suffix joins its
/// last row.
pub open spec fn glue_rows(
    pre: Seq<Seq<char>>,
    block: Seq<Seq<Seq<char>>>,
    suf: Seq<Seq<char>>,
) -> Seq<Seq<Seq<char>>> {
    Seq::new(
        block.len(),
        |i: int|
            (if i == 0 {
                pre
            } else {
                Seq::<Seq<char>>::empty()
            }) + block[i] + (if i == block.len() - 1 {
                suf
            } else {
                Seq::<Seq<char>>::empty()
            }),
    )
}

/// The document after inserting `block` at position `(x, y)`: line `y` is
/// split at `x` and the block's rows are glued in between.
pub open spec fn splice_insert(
    doc: Seq<Seq<Seq<char>>>,
    x: int,
    y: int,
    block: Seq<Seq<Seq<char>>>,
) -> Seq<Seq<Seq<char>>> {
    doc.take(y) + glue_rows(doc[y].take(x), block, doc[y].skip(x)) + doc.skip(y + 1)
}

/// The column where an insertion of `block` at column `x` ends.
pub open spec fn insert_end_x(x: int, block: Seq<Seq<Seq<char>>>) -> int {
    if block.len() == 1 {
        x + block[0].len()
    } else {
        block.last().len() as int
    }
}

/// The line where an insertion of `block` at line `y` ends.
pub open spec fn insert_end_y(y: int, block: Seq<Seq<Seq<char>>>) -> int {
    y + block.len() - 1
}

/// The block of text occupying the span from `(x1, y1)` to `(x2, y2)`.
pub open spec fn extract_block(
    doc: Seq<Seq<Seq<char>>>,
    x1: int,
    y1: int,
    x2: int,
    y2: int,
) -> Seq<Seq<Seq<char>>> {
    if y1 == y2 {
        seq![doc[y1].subrange(x1, x2)]
    } else {
        seq![doc[y1].skip(x1)] + doc.subrange(y1 + 1, y2) + seq![doc[y2].take(x2)]
    }
}

/// The document after deleting the span from `(x1, y1)` to `(x2, y2)`: what
/// is left of line `y1` joins what is left of line `y2`.
pub open spec fn splice_delete(
    doc: Seq<Seq<Seq<char>>>,
    x1: int,
    y1: int,
    x2: int,
    y2: int,
) -> Seq<Seq<Seq<char>>> {
    doc.take(y1) + seq![doc[y1].take(x1) + doc[y2].skip(x2)] + doc.skip(y2 + 1)
}

/// What each line of the document is after an insertion, stated row by row.
pub proof fn lemma_splice_insert_parts(
    doc: Seq<Seq<Seq<char>>>,
    x: int,
    y: int,
    block: Seq<Seq<Seq<char>>>,
)
    requires
        pos_valid(doc, x, y),
        block.len() >= 1,
    ensures
        ({
            let res = splice_insert(doc, x, y, block);
            let n = block.len() as int;
            &&& res.len() == doc.len() + n - 1
            &&& (forall|i: int| 0 <= i < y ==> res[i] == doc[i])
            &&& (n == 1 ==> res[y] == doc[y].take(x) + block[0] + doc[y].skip(x))
            &&& (n > 1 ==> res[y] == doc[y].take(x) + block[0])
            &&& (n > 1 ==> forall|j: int| 1 <= j < n - 1 ==> res[y + j] == block[j])
            &&& (n > 1 ==> res[y + n - 1] == block[n - 1] + doc[y].skip(x))
            &&& (forall|i: int| y + n <= i < res.len() ==> res[i] == doc[i - n + 1])
        }),
{
    let res = splice_insert(doc, x, y, block);
    let n = block.len() as int;
    let pre = doc[y].take(x);
    let suf = doc[y].skip(x);
    let glue = glue_rows(pre, block, suf);
    assert(forall|j: int| 0 <= j < n ==> res[y + j] == glue[j]);
    if n == 1 {
        assert(res[y] == pre + block[0] + suf);
    } else {
        assert(res[y] == pre + block[0] + Seq::<Seq<char>>::empty());
        assert(pre + block[0] + Seq::<Seq<char>>::empty() =~= pre + block[0]);
        assert(forall|j: int|
            1 <= j < n - 1 ==> res[y + j] == Seq::<Seq<char>>::empty() + #[trigger] block[j]
                + Seq::<Seq<char>>::empty());
        assert(forall|j: int|
            1 <= j < n - 1 ==> Seq::<Seq<char>>::empty() + #[trigger] block[j]
                + Seq::<Seq<char>>::empty() =~= block[j]);
        assert(res[y + n - 1] == Seq::<Seq<char>>::empty() + block[n - 1] + suf);
        assert(Seq::<Seq<char>>::empty() + block[n - 1] + suf =~= block[n - 1] + suf);
    }
}

/// What each line of the document is after a deletion, stated row by row.
pub proof fn lemma_splice_delete_parts(doc: Seq<Seq<Seq<char>>>, x1: int, y1: int, x2: int, y2: int)
    requires
        span_valid(doc, x1, y1, x2, y2),
    ensures
        ({
            let res = splice_delete(doc, x1, y1, x2, y2);
            &&& res.len() == doc.len() - (y2 - y1)
            &&& (forall|i: int| 0 <= i < y1 ==> res[i] == doc[i])
            &&& res[y1] == doc[y1].take(x1) + doc[y2].skip(x2)
            &&& (forall|i: int| y1 < i < res.len() ==> res[i] == doc[i + (y2 - y1)])
        }),
{
}

/// What each row of an extracted block is, stated row by row.
pub proof fn lemma_extract_parts(doc: Seq<Seq<Seq<char>>>, x1: int, y1: int, x2: int, y2: int)
    requires
        span_valid(doc, x1, y1, x2, y2),
    ensures
        ({
            let b = extract_block(doc, x1, y1, x2, y2);
            &&& b.len() == y2 - y1 + 1
            &&& (y1 == y2 ==> b[0] == doc[y1].subrange(x1, x2))
            &&& (y1 < y2 ==> b[0] == doc[y1].skip(x1))
            &&& (y1 < y2 ==> forall|j: int| 1 <= j < b.len() - 1 ==> b[j] == doc[y1 + j])
            &&& (y1 < y2 ==> b[b.len() - 1] == doc[y2].take(x2))
        }),
{
    let b = extract_block(doc, x1, y1, x2, y2);
    if y1 < y2 {
        assert(forall|j: int|
            1 <= j < b.len() - 1 ==> #[trigger] b[j] == doc.subrange(y1 + 1, y2)[j - 1]);
        assert(forall|j: int|
            1 <= j < b.len() - 1 ==> #[trigger] doc.subrange(y1 + 1, y2)[j - 1] == doc[y1 + j]);
    }
}

/// Inserting a block and then deleting the span it occupies is the identity,
/// and what that span holds is exactly the inserted block.
pub proof fn lemma_insert_then_delete(
    doc: Seq<Seq<Seq<char>>>,
    x: int,
    y: int,
    block: Seq<Seq<Seq<char>>>,
)
    requires
        pos_valid(doc, x, y),
        block.len() >= 1,
    ensures
        ({
            let d2 = splice_insert(doc, x, y, block);
            let x2 = insert_end_x(x, block);
            let y2 = insert_end_y(y, block);
            &&& d2.len() == doc.len() + block.len() - 1
            &&& span_valid(d2, x, y, x2, y2)
            &&& extract_block(d2, x, y, x2, y2) =~~= block
            &&& splice_delete(d2, x, y, x2, y2) =~~= doc
        }),
{
    let d2 = splice_insert(doc, x, y, block);
    let x2 = insert_end_x(x, block);
    let y2 = insert_end_y(y, block);
    let n = block.len() as int;
    let pre = doc[y].take(x);
    let suf = doc[y].skip(x);
    let glue = glue_rows(pre, block, suf);
    assert(glue.len() == n);
    assert(d2.len() == doc.len() + n - 1);
    assert(forall|i: int| 0 <= i < y ==> d2[i] == doc[i]);
    assert(forall|j: int| 0 <= j < n ==> d2[y + j] == glue[j]);
    assert(forall|i: int| y + n <= i < d2.len() ==> d2[i] == doc[i - n + 1]);
    if n == 1 {
        assert(d2[y] == pre + block[0] + suf);
        assert(x2 == x + block[0].len());
        assert(span_valid(d2, x, y, x2, y2));
        assert(d2[y].subrange(x, x2) =~= block[0]);
        assert(extract_block(d2, x, y, x2, y2) =~~= block);
        assert(d2[y].take(x) =~= pre);
        assert(d2[y].skip(x2) =~= suf);
        assert(d2[y].take(x) + d2[y].skip(x2) =~= doc[y]);
        assert(splice_delete(d2, x, y, x2, y2) =~~= doc);
    } else {
        assert(d2[y] == pre + block[0] + Seq::<Seq<char>>::empty());
        assert(d2[y2] == Seq::<Seq<char>>::empty() + block[n - 1] + suf);
        assert(x2 == block[n - 1].len());
        assert(d2[y2].len() == block[n - 1].len() + suf.len());
        assert(span_valid(d2, x, y, x2, y2));
        let ext = extract_block(d2, x, y, x2, y2);
        assert(ext.len() == n);
        assert(d2[y].skip(x) =~= block[0]);
        assert(ext[0] == d2[y].skip(x));
        assert(forall|j: int| 1 <= j < n - 1 ==> ext[j] == d2.subrange(y + 1, y2)[j - 1]);
        assert(forall|j: int|
            1 <= j < n - 1 ==> d2.subrange(y + 1, y2)[j - 1] == d2[y + j] && d2[y + j]
                == Seq::<Seq<char>>::empty() + block[j] + Seq::<Seq<char>>::empty());
        assert(forall|j: int|
            1 <= j < n - 1 ==> Seq::<Seq<char>>::empty() + #[trigger] block[j]
                + Seq::<Seq<char>>::empty() =~= block[j]);
        assert(ext[n - 1] == d2[y2].take(x2));
        assert(d2[y2].take(x2) =~= block[n - 1]);
        assert(ext =~~= block);
        assert(d2[y].take(x) =~= pre);
        assert(d2[y2].skip(x2) =~= suf);
        assert(d2[y].take(x) + d2[y2].skip(x2) =~= doc[y]);
        let dd = splice_delete(d2, x, y, x2, y2);
        assert(dd.len() == doc.len());
        assert(forall|i: int| 0 <= i < y ==> dd[i] == d2[i] && dd[i] == doc[i]);
        assert(dd[y] == d2[y].take(x) + d2[y2].skip(x2));
        assert(forall|i: int| y < i < dd.len() ==> dd[i] == d2[i + n - 1] && dd[i] == doc[i]);
        assert(dd =~~= doc);
    }
}

/// Deleting a span and then re-inserting the block it held at the start of
/// the span is the identity, and the insertion ends where the span ended.
pub proof fn lemma_delete_then_insert(doc: Seq<Seq<Seq<char>>>, x1: int, y1: int, x2: int, y2: int)
    requires
        span_valid(doc, x1, y1, x2, y2),
    ensures
        ({
            let block = extract_block(doc, x1, y1, x2, y2);
            let d2 = splice_delete(doc, x1, y1, x2, y2);
            &&& block.len() == y2 - y1 + 1
            &&& d2.len() == doc.len() - (y2 - y1)
            &&& pos_valid(d2, x1, y1)
            &&& insert_end_x(x1, block) == x2
            &&& insert_end_y(y1, block) == y2
            &&& splice_insert(d2, x1, y1, block) =~~= doc
        }),
{
    let block = extract_block(doc, x1, y1, x2, y2);
    let d2 = splice_delete(doc, x1, y1, x2, y2);
    let n = block.len() as int;
    assert(d2.len() == doc.len() - (y2 - y1));
    assert(forall|i: int| 0 <= i < y1 ==> d2[i] == doc[i]);
    assert(d2[y1] == doc[y1].take(x1) + doc[y2].skip(x2));
    assert(forall|i: int| y1 < i < d2.len() ==> d2[i] == doc[i + (y2 - y1)]);
    assert(pos_valid(d2, x1, y1));
    let pre = d2[y1].take(x1);
    let suf = d2[y1].skip(x1);
    assert(pre =~= doc[y1].take(x1));
    assert(suf =~= doc[y2].skip(x2));
    let res = splice_insert(d2, x1, y1, block);
    let glue = glue_rows(pre, block, suf);
    if y1 == y2 {
        assert(n == 1);
        assert(block[0] == doc[y1].subrange(x1, x2));
        assert(insert_end_x(x1, block) == x1 + (x2 - x1));
        assert(glue[0] == pre + block[0] + suf);
        assert(pre + block[0] + suf =~= doc[y1]);
        assert(res.len() == doc.len());
        assert(forall|i: int| 0 <= i < y1 ==> res[i] == d2[i]);
        assert(res[y1] == glue[0]);
        assert(forall|i: int| y1 < i < res.len() ==> res[i] == d2[i]);
        assert(res =~~= doc);
    } else {
        assert(n == y2 - y1 + 1);
        assert(block[0] == doc[y1].skip(x1));
        assert(forall|j: int| 1 <= j < n - 1 ==> #[trigger] block[j] == doc.subrange(y1 + 1, y2)[j - 1]);
        assert(forall|j: int| 1 <= j < n - 1 ==> #[trigger] doc.subrange(y1 + 1, y2)[j - 1] == doc[y1 + j]);
        assert(block[n - 1] == doc[y2].take(x2));
        assert(insert_end_x(x1, block) == doc[y2].take(x2).len());
        assert(doc[y2].take(x2).len() == x2);
        assert(res.len() == d2.len() + n - 1);
        assert(res.len() == doc.len());
        assert(forall|i: int| 0 <= i < y1 ==> res[i] == d2[i] && res[i] == doc[i]);
        assert(forall|j: int| 0 <= j < n ==> res[y1 + j] == glue[j]);
        assert(glue[0] == pre + block[0] + Seq::<Seq<char>>::empty());
        assert(pre + doc[y1].skip(x1) + Seq::<Seq<char>>::empty() =~= doc[y1]);
        assert(forall|j: int|
            1 <= j < n - 1 ==> glue[j] == Seq::<Seq<char>>::empty() + block[j]
                + Seq::<Seq<char>>::empty());
        assert(forall|j: int|
            1 <= j < n - 1 ==> Seq::<Seq<char>>::empty() + #[trigger] doc[y1 + j]
                + Seq::<Seq<char>>::empty() =~= doc[y1 + j]);
        assert(glue[n - 1] == Seq::<Seq<char>>::empty() + block[n - 1] + suf);
        assert(Seq::<Seq<char>>::empty() + doc[y2].take(x2) + doc[y2].skip(x2) =~= doc[y2]);
        assert(forall|i: int| y1 + n <= i < res.len() ==> res[i] == d2[i - n + 1] && res[i]
            == doc[i]);
        assert(res =~~= doc);
    }
}

} // verus!
