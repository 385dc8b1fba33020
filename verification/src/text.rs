//! Text blocks: multi-line pieces of text in grapheme-cluster form.
//!
//! A grapheme cluster is modeled as the sequence of its characters, a line as
//! the sequence of its clusters, and a block of text as the sequence of its
//! lines. Incoming strings are split on `'\n'` by verified code and each
//! piece is segmented into clusters at the trusted Unicode boundary.

use crate::unicode::{graphemes_of, split_graphemes};
use vstd::prelude::*;
use vstd::string::*;

verus! {

/// The pieces of `s` between newline characters: one piece more than there
/// are `'\n'` characters, in order, so a trailing newline yields a final
/// empty piece.
pub open spec fn split_lines_spec(s: Seq<char>) -> Seq<Seq<char>>
    decreases s.len(),
{
    if s.len() == 0 {
        seq![Seq::<char>::empty()]
    } else if s[0] == '\n' {
        seq![Seq::<char>::empty()] + split_lines_spec(s.skip(1))
    } else {
        let rest = split_lines_spec(s.skip(1));
        seq![seq![s[0]] + rest[0]] + rest.skip(1)
    }
}

/// A string always splits into at least one piece.
pub proof fn lemma_split_lines_len(s: Seq<char>)
    ensures
        split_lines_spec(s).len() >= 1,
    decreases s.len(),
{
    if s.len() == 0 {
    } else {
        lemma_split_lines_len(s.skip(1));
    }
}

/// A string without newlines splits into exactly itself.
pub proof fn lemma_split_lines_no_newline(s: Seq<char>)
    requires
        forall|i: int| 0 <= i < s.len() ==> s[i] != '\n',
    ensures
        split_lines_spec(s) == seq![s],
    decreases s.len(),
{
    if s.len() == 0 {
        assert(s =~= Seq::<char>::empty());
        assert(split_lines_spec(s) =~~= seq![s]);
    } else {
        assert(s[0] != '\n');
        assert(forall|i: int| 0 <= i < s.skip(1).len() ==> s.skip(1)[i] != '\n');
        lemma_split_lines_no_newline(s.skip(1));
        assert(seq![s[0]] + s.skip(1) =~= s);
        assert(split_lines_spec(s) =~= seq![s]);
    }
}

/// Splitting at the first newline: the part before it is the first piece and
/// the rest splits on its own.
pub proof fn lemma_split_lines_at_newline(s: Seq<char>, i: int)
    requires
        0 <= i < s.len(),
        s[i] == '\n',
        forall|j: int| 0 <= j < i ==> s[j] != '\n',
    ensures
        split_lines_spec(s) == seq![s.take(i)] + split_lines_spec(s.skip(i + 1)),
    decreases i,
{
    if i == 0 {
        assert(s.take(0) =~= Seq::<char>::empty());
        assert(split_lines_spec(s) =~= seq![s.take(0)] + split_lines_spec(s.skip(1)));
    } else {
        assert(s[0] != '\n');
        let t = s.skip(1);
        assert(t[i - 1] == s[i]);
        assert(forall|j: int| 0 <= j < i - 1 ==> t[j] == s[j + 1] && t[j] != '\n');
        lemma_split_lines_at_newline(t, i - 1);
        lemma_split_lines_len(t.skip(i));
        assert(t.take(i - 1) =~= s.take(i).skip(1));
        assert(t.skip(i) =~= s.skip(i + 1));
        assert(seq![s[0]] + s.take(i).skip(1) =~= s.take(i));
        assert((seq![s.take(i)] + split_lines_spec(s.skip(i + 1))).skip(1) =~= split_lines_spec(
            s.skip(i + 1),
        ));
        assert(split_lines_spec(s) =~= seq![s.take(i)] + split_lines_spec(s.skip(i + 1)));
    }
}

/// Each piece of a sequence of pieces, as its sequence of grapheme clusters.
pub open spec fn graphemes_map(ps: Seq<Seq<char>>) -> Seq<Seq<Seq<char>>> {
    Seq::new(ps.len(), |i: int| graphemes_of(ps[i]))
}

/// The grapheme-cluster form of a string: split on newlines, each piece as
/// its sequence of clusters.
pub open spec fn text_block_spec(s: Seq<char>) -> Seq<Seq<Seq<char>>> {
    graphemes_map(split_lines_spec(s))
}

/// The characters of a line: its grapheme clusters, concatenated in order.
pub open spec fn line_text(line: Seq<Seq<char>>) -> Seq<char>
    decreases line.len(),
{
    if line.len() == 0 {
        Seq::empty()
    } else {
        line[0] + line_text(line.skip(1))
    }
}

/// The characters of a block: its lines joined by newline characters.
pub open spec fn block_text(block: Seq<Seq<Seq<char>>>) -> Seq<char>
    decreases block.len(),
{
    if block.len() == 0 {
        Seq::empty()
    } else if block.len() == 1 {
        line_text(block[0])
    } else {
        line_text(block[0]) + seq!['\n'] + block_text(block.skip(1))
    }
}

/// Reading one more cluster extends the text of a line prefix by that
/// cluster.
pub proof fn lemma_line_text_take_step(line: Seq<Seq<char>>, i: int)
    requires
        0 <= i < line.len(),
    ensures
        line_text(line.take(i + 1)) == line_text(line.take(i)) + line[i],
    decreases i,
{
    if i == 0 {
        assert(line.take(1)[0] == line[0]);
        assert(line.take(1).skip(1) =~= Seq::<Seq<char>>::empty());
        assert(line.take(0) =~= Seq::<Seq<char>>::empty());
        assert(line_text(line.take(1)) =~= line_text(line.take(0)) + line[0]);
    } else {
        let t = line.skip(1);
        lemma_line_text_take_step(t, i - 1);
        assert(line.take(i + 1).skip(1) =~= t.take(i));
        assert(line.take(i).skip(1) =~= t.take(i - 1));
        assert(line.take(i + 1)[0] == line[0]);
        assert(line.take(i)[0] == line[0]);
        assert(t[i - 1] == line[i]);
        assert((line[0] + line_text(t.take(i - 1))) + line[i] =~= line[0] + (line_text(
            t.take(i - 1),
        ) + line[i]));
    }
}

/// Reading one more line extends the text of a block prefix by a newline and
/// that line.
pub proof fn lemma_block_text_take_step(block: Seq<Seq<Seq<char>>>, i: int)
    requires
        1 <= i < block.len(),
    ensures
        block_text(block.take(i + 1)) == block_text(block.take(i)) + seq!['\n'] + line_text(
            block[i],
        ),
    decreases i,
{
    if i == 1 {
        assert(block.take(2)[0] == block[0]);
        assert(block.take(2).len() == 2);
        assert(block.take(2).skip(1) =~= seq![block[1]]);
        assert(block_text(block.take(2)) == line_text(block[0]) + seq!['\n'] + block_text(
            seq![block[1]],
        ));
        assert(seq![block[1]].len() == 1);
        assert(seq![block[1]][0] == block[1]);
        assert(block_text(seq![block[1]]) == line_text(block[1]));
        assert(block.take(1)[0] == block[0]);
        assert(block.take(1).len() == 1);
        assert(block_text(block.take(1)) == line_text(block[0]));
        assert(block_text(block.take(2)) =~= block_text(block.take(1)) + seq!['\n'] + line_text(
            block[1],
        ));
    } else {
        let t = block.skip(1);
        lemma_block_text_take_step(t, i - 1);
        assert(block.take(i + 1).skip(1) =~= t.take(i));
        assert(block.take(i).skip(1) =~= t.take(i - 1));
        assert(block.take(i + 1)[0] == block[0]);
        assert(block.take(i)[0] == block[0]);
        assert(t[i - 1] == block[i]);
        assert(block.take(i + 1).len() == i + 1);
        assert(block.take(i).len() == i);
        assert((line_text(block[0]) + seq!['\n'] + (block_text(t.take(i - 1)) + seq!['\n']
            + line_text(block[i]))) =~= ((line_text(block[0]) + seq!['\n'] + block_text(
            t.take(i - 1),
        )) + seq!['\n'] + line_text(block[i])));
    }
}

/// A block of text in grapheme-cluster form: at least one line, each line a
/// vector of clusters.
pub struct TextBlock {
    pub lines: Vec<Vec<String>>,
}

impl TextBlock {
    /// The mathematical value of the block: lines of clusters of characters.
    pub open spec fn model(&self) -> Seq<Seq<Seq<char>>> {
        self.lines.deep_view()
    }

    pub open spec fn wf(&self) -> bool {
        self.lines.len() >= 1
    }

    /// Segments a string into its grapheme-cluster block form.
    pub fn from_text(text: &str) -> (r: TextBlock)
        ensures
            r.wf(),
            r.model() == text_block_spec(text@),
    {
        let pieces = split_text_lines(text);
        let mut lines: Vec<Vec<String>> = Vec::new();
        let mut i: usize = 0;
        while i < pieces.len()
            invariant
                i <= pieces.len(),
                pieces.deep_view() == split_lines_spec(text@),
                lines.deep_view() == graphemes_map(pieces.deep_view().take(i as int)),
            decreases pieces.len() - i,
        {
            let cells = split_graphemes(pieces[i].as_str());
            let ghost prev = lines.deep_view();
            lines.push(cells);
            proof {
                let cur = lines.deep_view();
                let tgt = graphemes_map(pieces.deep_view().take(i + 1));
                assert(prev.len() == i as int);
                assert(lines@.len() == i + 1);
                assert(cur.len() == lines@.len());
                assert(cur.len() == i + 1);
                assert(tgt.len() == i + 1);
                assert forall|j: int| 0 <= j < i + 1 implies cur[j] == tgt[j] by {
                    assert(tgt[j] == graphemes_of(pieces.deep_view().take(i + 1)[j]));
                    if j < i {
                        assert(cur[j] == prev[j]);
                        assert(prev[j] == graphemes_of(pieces.deep_view().take(i as int)[j]));
                    } else {
                        assert(cur[j] == cells.deep_view());
                    }
                }
                assert(cur =~~= tgt);
            }
            i += 1;
        }
        proof {
            lemma_split_lines_len(text@);
            assert(pieces.deep_view().take(pieces.len() as int) =~~= pieces.deep_view());
            assert(lines.deep_view() =~~= text_block_spec(text@));
        }
        TextBlock { lines }
    }
}

/// Splits a string into its pieces between newline characters.
fn split_text_lines(s: &str) -> (pieces: Vec<String>)
    ensures
        pieces.deep_view() == split_lines_spec(s@),
{
    let n = s.unicode_len();
    let mut pieces: Vec<String> = Vec::new();
    let mut start: usize = 0;
    proof {
        assert(s@.skip(0) =~= s@);
        assert(pieces.deep_view() + split_lines_spec(s@) =~~= split_lines_spec(s@));
    }
    loop
        invariant_except_break
            start <= n,
            n == s@.len(),
            split_lines_spec(s@) == pieces.deep_view() + split_lines_spec(s@.skip(start as int)),
        ensures
            pieces.deep_view() == split_lines_spec(s@),
        decreases n - start,
    {
        let mut j: usize = start;
        while j < n && s.get_char(j) != '\n'
            invariant
                start <= j <= n,
                n == s@.len(),
                forall|k: int| start <= k < j ==> s@[k] != '\n',
            decreases n - j,
        {
            j += 1;
        }
        let piece = s.substring_char(start, j).to_owned();
        let ghost old_pieces = pieces.deep_view();
        pieces.push(piece);
        proof {
            assert(pieces.deep_view() =~= old_pieces.push(piece@));
            assert(piece@ =~= s@.skip(start as int).take(j - start));
        }
        if j < n {
            proof {
                assert(s@[j as int] == '\n');
                assert(s@.skip(start as int)[j - start] == '\n');
                assert(forall|k: int|
                    0 <= k < j - start ==> s@.skip(start as int)[k] == s@[k + start]
                        && s@.skip(start as int)[k] != '\n');
                lemma_split_lines_at_newline(s@.skip(start as int), j - start);
                assert(s@.skip(start as int).skip(j - start + 1) =~= s@.skip(j + 1));
                assert(split_lines_spec(s@) =~= pieces.deep_view() + split_lines_spec(
                    s@.skip(j + 1),
                ));
            }
            start = j + 1;
        } else {
            proof {
                assert(forall|k: int|
                    0 <= k < s@.skip(start as int).len() ==> s@.skip(start as int)[k] == s@[k
                        + start] && s@.skip(start as int)[k] != '\n');
                lemma_split_lines_no_newline(s@.skip(start as int));
                assert(piece@ =~= s@.skip(start as int));
                assert(split_lines_spec(s@) =~= pieces.deep_view());
            }
            break ;
        }
    }
    pieces
}

} // verus!
