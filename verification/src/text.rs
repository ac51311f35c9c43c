//! Grapheme-cluster segmentation: the boundary between the library's
//! verified logic and the Unicode segmentation algorithm.
//!
//! A line of text is modelled as a sequence of grapheme clusters, each a
//! non-empty sequence of characters. Segmenting a string is delegated to
//! the `unicode-segmentation` crate; everything downstream of segmentation
//! works on the resulting clusters and is verified.

use vstd::prelude::*;

use unicode_segmentation::UnicodeSegmentation;

verus! {

/// The concatenation of a sequence of grapheme clusters, last cluster
/// appended last.
pub open spec fn concat_all(clusters: Seq<Seq<char>>) -> Seq<char>
    decreases clusters.len(),
{
    if clusters.len() == 0 {
        Seq::empty()
    } else {
        concat_all(clusters.drop_last()) + clusters.last()
    }
}

/// The extended grapheme clusters of a text, in order. The segmentation is
/// a function of the characters alone; its boundaries are fixed by the
/// Unicode segmentation algorithm, which the library does not restate.
pub uninterp spec fn grapheme_clusters(s: Seq<char>) -> Seq<Seq<char>>;

/// Relies on `unicode_segmentation::UnicodeSegmentation::graphemes` (with
/// extended clusters selected): it splits a string into its grapheme
/// clusters, in order, such that concatenating the clusters yields the
/// original string, and no cluster is empty.
#[verifier::external_body]
pub(crate) fn segment_graphemes(s: &str) -> (r: Vec<String>)
    ensures
        r.deep_view() == grapheme_clusters(s@),
        concat_all(r.deep_view()) == s@,
        forall|i: int| 0 <= i < r.deep_view().len() ==> r.deep_view()[i].len() > 0,
{
    s.graphemes(true).map(|g| g.to_owned()).collect()
}

/// Relies on `String::from(char)`: the returned string holds exactly the
/// one character given.
#[verifier::external_body]
pub(crate) fn char_to_cluster(c: char) -> (r: String)
    ensures
        r@ == seq![c],
{
    String::from(c)
}

/// Concatenation distributes over taking one more cluster.
pub proof fn lemma_concat_all_take(clusters: Seq<Seq<char>>, i: int)
    requires
        0 <= i < clusters.len(),
    ensures
        concat_all(clusters.take(i + 1)) == concat_all(clusters.take(i)) + clusters[i],
{
    assert(clusters.take(i + 1).drop_last() =~= clusters.take(i));
    assert(clusters.take(i + 1).last() == clusters[i]);
}

} // verus!
