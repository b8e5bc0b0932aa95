//! Text as a sequence of grapheme clusters.
use vstd::prelude::*;
use crate::value::string_views;

verus! {

/// The extended grapheme clusters of a string, in order, as Unicode's text
/// segmentation rules divide it.
pub uninterp spec fn grapheme_clusters(text: Seq<char>) -> Seq<Seq<char>>;

/// Splits a string into its extended grapheme clusters.
///
/// Trusted: calls `UnicodeSegmentation::graphemes` of the crate
/// `unicode-segmentation` with `is_extended` set, and copies each cluster it
/// yields into a string of its own. The contract only gives the result its
/// name; nothing is claimed of where the boundaries fall.
#[verifier::external_body]
pub(crate) fn split_graphemes(text: &str) -> (clusters: Vec<String>)
    ensures
        string_views(clusters@) == grapheme_clusters(text@),
{
    unicode_segmentation::UnicodeSegmentation::graphemes(text, true).map(
        |cluster| cluster.to_owned(),
    ).collect()
}

} // verus!
