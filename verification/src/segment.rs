//! Word segmentation by the Unicode rules for word boundaries.

use unicode_segmentation::UnicodeSegmentation;
use vstd::prelude::*;

verus! {

/// The segments into which the Unicode word-boundary rules split a text, in
/// order: words, runs of white space, single punctuation marks.
pub uninterp spec fn word_bounds(text: Seq<char>) -> Seq<Seq<char>>;

/// The texts of a list of strings.
pub open spec fn string_texts(strings: Seq<String>) -> Seq<Seq<char>> {
    Seq::new(strings.len(), |i: int| strings[i]@)
}

/// `UnicodeSegmentation::split_word_bounds`, each segment copied into a string
/// of its own. The segments are those of the word-boundary rules, and, as the
/// crate documents, joined together they give the text back.
#[verifier::external_body]
pub(crate) fn split_word_bounds(text: &str) -> (segments: Vec<String>)
    ensures
        string_texts(segments@) == word_bounds(text@),
        string_texts(segments@).flatten() == text@,
{
    text.split_word_bounds().map(String::from).collect()
}

} // verus!
