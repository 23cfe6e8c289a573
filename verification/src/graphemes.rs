//! Measuring display width of column names in grapheme clusters.

use vstd::prelude::*;

verus! {

/// The number of extended grapheme clusters of a character sequence.
/// What the clusters are is defined by Unicode segmentation; contracts
/// only rely on the count being a function of the characters alone.
pub uninterp spec fn grapheme_clusters(s: Seq<char>) -> nat;

/// Relies on unicode_segmentation::UnicodeSegmentation::graphemes: the
/// extended grapheme clusters of a string depend on its characters alone,
/// each cluster holds at least one character, and an empty string has none.
#[verifier::external_body]
pub fn count_graphemes(s: &str) -> (r: usize)
    ensures
        r == grapheme_clusters(s@),
        r <= s@.len(),
        s@.len() == 0 ==> r == 0,
{
    unicode_segmentation::UnicodeSegmentation::graphemes(s, true).count()
}

} // verus!
