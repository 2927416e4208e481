//! Small helpers on text.

use vstd::prelude::*;

verus! {

/// The lower-case form of a text, as the standard library computes it from
/// the Unicode character tables.
pub uninterp spec fn lowercase(text: Seq<char>) -> Seq<char>;

/// Calls `str::to_lowercase` of the standard library. Nothing is proved of the
/// call: the contract only gives its result the name `lowercase`, a function of
/// the text alone.
#[verifier::external_body]
pub(crate) fn to_lowercase(text: &str) -> (result: String)
    ensures
        result@ == lowercase(text@),
{
    text.to_lowercase()
}

/// The characters of an optional text.
pub open spec fn optional_text(text: Option<String>) -> Option<Seq<char>> {
    match text {
        Some(text) => Some(text@),
        None => None,
    }
}

/// Whether two texts hold the same characters.
pub fn same_text(left: &str, right: &str) -> (result: bool)
    ensures
        result == (left@ == right@),
{
    left.to_owned() == right.to_owned()
}

/// A copy of an optional text.
pub fn copy_optional_text(text: &Option<String>) -> (result: Option<String>)
    ensures
        optional_text(result) == optional_text(*text),
{
    match text {
        Some(text) => Some(text.clone()),
        None => None,
    }
}

} // verus!
