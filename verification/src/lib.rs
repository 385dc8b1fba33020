//! Core of a multi-pane text editor: a line-oriented buffer with
//! grapheme-cluster coordinates, cursor and selection tracking, an undo/redo
//! action log, and a viewport layer with word-wrap accounting and animated
//! scrolling.

use vstd::prelude::*;

pub mod buffer;
pub mod edits;
pub mod history;
pub mod mapper;
pub mod project;
mod rows;
pub mod text;
pub mod unicode;
pub mod viewport;

verus! {

/// Cycles an index one step forward through a collection of `len` items;
/// an index at or past `len` wraps like any other.
pub fn next(idx: usize, len: usize) -> (r: usize)
    requires
        len > 0,
        idx < usize::MAX,
    ensures
        r == (idx + 1) % (len as int),
        r < len,
{
    (idx + 1) % len
}

/// Cycles an index one step backward through a collection of `len` items;
/// an index at or past `len` is first brought into range.
pub fn prev(idx: usize, len: usize) -> (r: usize)
    requires
        len > 0,
    ensures
        r == if (idx as int) % (len as int) == 0 {
            (len - 1) as int
        } else {
            (idx as int) % (len as int) - 1
        },
        r < len,
{
    let m = idx % len;
    if m == 0 {
        len - 1
    } else {
        m - 1
    }
}

} // verus!
