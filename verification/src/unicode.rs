//! The trusted boundary to Unicode segmentation.
//!
//! Every x-coordinate in the document model is a grapheme-cluster index, so
//! the library stores each line as its sequence of grapheme clusters. The
//! segmentation itself is computed by the `unicode-segmentation` crate; its
//! results are given names here and everything downstream is verified against
//! those names.

use unicode_segmentation::UnicodeSegmentation;
use vstd::prelude::*;

verus! {

/// The extended grapheme clusters of a string of characters, in order.
pub uninterp spec fn graphemes_of(s: Seq<char>) -> Seq<Seq<char>>;

/// The byte offsets at which a word begins or ends in a string, in the order
/// the string is read.
pub uninterp spec fn word_bounds_of(s: Seq<char>) -> Seq<usize>;

/// Relies on `unicode_segmentation::UnicodeSegmentation::graphemes` with
/// `is_extended = true`: the extended grapheme clusters of `s`, in order.
/// The clusters depend on the characters of `s` alone; an empty string has
/// no clusters.
#[verifier::external_body]
pub(crate) fn split_graphemes(s: &str) -> (r: Vec<String>)
    ensures
        r.deep_view() == graphemes_of(s@),
        s@.len() == 0 ==> r.deep_view().len() == 0,
{
    s.graphemes(true).map(|g| g.to_string()).collect()
}

/// Relies on `unicode_segmentation::UnicodeSegmentation::split_word_bound_indices`:
/// the starting byte offset of each segment between two word boundaries, in
/// the order the segments appear. The offsets depend on the characters of `s`
/// alone.
#[verifier::external_body]
pub(crate) fn word_bound_indices(s: &str) -> (r: Vec<usize>)
    ensures
        r@ == word_bounds_of(s@),
{
    s.split_word_bound_indices().map(|(i, _w)| i).collect()
}

} // verus!
