//! Text by user-perceived characters.

use unicode_segmentation::UnicodeSegmentation;
use vstd::prelude::*;

verus! {

/// The extended grapheme clusters of `text`, in order.
pub uninterp spec fn grapheme_clusters(text: Seq<char>) -> Seq<Seq<char>>;

/// The texts of strings.
pub open spec fn texts(strings: Seq<String>) -> Seq<Seq<char>> {
    strings.map_values(|string: String| string@)
}

/// `unicode_segmentation::UnicodeSegmentation::graphemes`, for extended grapheme
/// clusters.
///
/// The contract claims of the outside crate that the clusters depend on the text
/// alone, that each of them holds a character at least, and that one after the
/// other they are the text: each starts where the one before ends, the first at
/// the start of the text, and the last ends where the text does. Where the
/// boundaries are, it leaves to the crate.
#[verifier::external_body]
pub(crate) fn graphemes(text: &str) -> (clusters: Vec<String>)
    ensures
        texts(clusters@) == grapheme_clusters(text@),
        texts(clusters@).flatten() == text@,
        forall|i: int| 0 <= i < clusters@.len() ==> (#[trigger] clusters@[i])@.len() > 0,
{
    text.graphemes(true).map(|cluster| cluster.to_string()).collect()
}

/// The texts of strings are theirs, one by one.
pub proof fn law_texts(strings: Seq<String>)
    ensures
        texts(strings).len() == strings.len(),
        forall|i: int| 0 <= i < strings.len() ==> #[trigger] texts(strings)[i] == strings[i]@,
{
}

} // verus!
