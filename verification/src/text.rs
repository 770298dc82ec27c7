//! Changing the case of text.

use vstd::prelude::*;

verus! {

/// The text in small letters, as `str::to_lowercase` of the standard library
/// gives it.
pub uninterp spec fn lowercase_of(text: Seq<char>) -> Seq<char>;

/// The text in capital letters, as `str::to_uppercase` of the standard library
/// gives it.
pub uninterp spec fn uppercase_of(text: Seq<char>) -> Seq<char>;

/// Calls `str::to_lowercase`. The contract names the outcome, which depends
/// on the text alone.
#[verifier::external_body]
pub(crate) fn to_lowercase(text: &String) -> (lowered: String)
    ensures
        lowered@ == lowercase_of(text@),
{
    text.to_lowercase()
}

/// Calls `str::to_uppercase`. The contract names the outcome, which depends
/// on the text alone.
#[verifier::external_body]
pub(crate) fn to_uppercase(text: &String) -> (raised: String)
    ensures
        raised@ == uppercase_of(text@),
{
    text.to_uppercase()
}

} // verus!
