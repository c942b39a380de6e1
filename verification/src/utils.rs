//! How wide a text is when it is shown.
use vstd::prelude::*;
use unicode_segmentation::UnicodeSegmentation;

verus! {

/// The number of extended grapheme clusters that `text` is made of.
pub uninterp spec fn grapheme_count(text: Seq<char>) -> nat;

/// `UnicodeSegmentation::graphemes` with extended clusters: the width of
/// `s` is the number of clusters that the text falls into.
#[verifier::external_body]
pub(crate) fn unicode_str_width(s: &str) -> (r: usize)
    ensures
        r == grapheme_count(s@),
{
    s.graphemes(true).count()
}

} // verus!
