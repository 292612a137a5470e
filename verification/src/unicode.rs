//! Grapheme clusters and display widths.

use vstd::prelude::*;
use crate::text::texts;

verus! {

/// The texts `v` one after another.
pub open spec fn concat(v: Seq<Seq<char>>) -> Seq<char>
    decreases v.len(),
{
    if v.len() == 0 {
        Seq::empty()
    } else {
        concat(v.drop_last()) + v.last()
    }
}

/// The extended grapheme clusters of a text.
pub uninterp spec fn clusters(s: Seq<char>) -> Seq<Seq<char>>;

/// The number of columns that a text takes on the screen.
pub uninterp spec fn columns(s: Seq<char>) -> nat;

/// The number of columns that a character takes on the screen; none where it is
/// a control character.
pub uninterp spec fn char_columns(c: char) -> Option<nat>;

/// `UnicodeSegmentation::graphemes` with extended clusters. Which characters
/// make up a cluster is left to the crate's tables; the clusters are pieces of
/// the text that follow each other, none of them empty.
#[verifier::external_body]
pub(crate) fn clustersOf(s: &str) -> (r: Vec<String>)
    ensures
        texts(r@) == clusters(s@),
        concat(texts(r@)) == s@,
        forall|i: int| 0 <= i < r@.len() ==> (#[trigger] r@[i])@.len() > 0,
{
    unicode_segmentation::UnicodeSegmentation::graphemes(s, true).map(String::from).collect()
}

/// `UnicodeWidthStr::width`: the columns of a text, by the crate's tables.
#[verifier::external_body]
pub(crate) fn columnsOf(s: &str) -> (r: usize)
    ensures
        r == columns(s@),
{
    unicode_width::UnicodeWidthStr::width(s)
}

/// `UnicodeWidthChar::width`: the columns of a character, by the crate's tables.
#[verifier::external_body]
pub(crate) fn charColumns(c: char) -> (r: Option<usize>)
    ensures
        match r {
            Some(n) => char_columns(c) == Some(n as nat),
            None => char_columns(c) is None,
        },
{
    unicode_width::UnicodeWidthChar::width(c)
}

/// The columns of a character, a control character taking none.
pub open spec fn width_of(c: char) -> nat {
    match char_columns(c) {
        Some(n) => n,
        None => 0,
    }
}

/// The columns of a character, a control character taking none.
pub fn widthOf(c: char) -> (r: usize)
    ensures
        r == width_of(c),
{
    match charColumns(c) {
        Some(n) => n,
        None => 0,
    }
}

} // verus!
