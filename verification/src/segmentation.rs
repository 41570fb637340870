//! The text-segmentation boundary.  Truncation must respect
//! user-perceived characters, so the formatter works on the grapheme
//! clusters of a string, named here by an uninterpreted function.

use unicode_segmentation::UnicodeSegmentation;
use vstd::prelude::*;
use crate::text::views_of_strings;

verus! {

/// The extended grapheme clusters of a string, in order.  Consecutive
/// substrings of the input; their concatenation is the input.
pub uninterp spec fn graphemes_of(s: Seq<char>) -> Seq<Seq<char>>;

/// Relies on `UnicodeSegmentation::graphemes` (extended clusters): the
/// iterator yields the grapheme clusters of the string, consecutive
/// substrings whose concatenation is the original string, determined
/// by the string alone.
#[verifier::external_body]
pub(crate) fn grapheme_clusters(s: &str) -> (r: Vec<String>)
    ensures
        views_of_strings(r@) == graphemes_of(s@),
        views_of_strings(r@).flatten() == s@,
{
    let mut out: Vec<String> = Vec::new();
    for g in s.graphemes(true) {
        out.push(g.to_string());
    }
    out
}

} // verus!
