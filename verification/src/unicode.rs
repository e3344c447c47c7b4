//! Lower case beyond ASCII, as the standard library has it.

use vstd::prelude::*;
use vstd::string::*;

verus! {

/// The text that `str::to_lowercase` gives for a text.
pub uninterp spec fn lowercase(s: Seq<char>) -> Seq<char>;

/// Calls `str::to_lowercase`. Of its result only the name is claimed: it is
/// determined by the text alone.
#[verifier::external_body]
pub(crate) fn to_lowercase(s: &str) -> (r: String)
    ensures
        r@ == lowercase(s@),
{
    s.to_lowercase()
}

/// The characters that `char::to_lowercase` gives for a character.
pub uninterp spec fn lowercase_char(c: char) -> Seq<char>;

/// Calls `char::to_lowercase` and collects what it yields. The result is determined
/// by the character alone, and is one or more characters.
#[verifier::external_body]
pub(crate) fn char_to_lowercase(c: char) -> (r: Vec<char>)
    ensures
        r@ == lowercase_char(c),
        r@.len() > 0,
{
    c.to_lowercase().collect()
}

} // verus!
