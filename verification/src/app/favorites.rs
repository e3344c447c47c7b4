//! The file of the starred pipelines: a JSON array of their names.

use vstd::prelude::*;
use vstd::string::*;

verus! {

/// The JSON text that `serde_json::to_string` writes for a list of strings.
pub uninterp spec fn names_to_json(names: Seq<Seq<char>>) -> Seq<char>;

/// The list of strings that `serde_json::from_str` reads from a text, if it
/// reads one.
pub uninterp spec fn names_from_json(text: Seq<char>) -> Option<Seq<Seq<char>>>;

/// Calls `serde_json::to_string` on a list of strings. It writes to memory and no
/// string is refused, so there is always a text; which one depends on the strings
/// alone, and `serde_json::from_str` reads the same strings from it.
#[verifier::external_body]
fn to_json(names: &Vec<String>) -> (r: Option<String>)
    ensures
        r.deep_view() == Some(names_to_json(names.deep_view())),
        names_from_json(r.deep_view()->0) == Some(names.deep_view()),
{
    serde_json::to_string(names).ok()
}

/// Calls `serde_json::from_str` for a list of strings. What it reads, or that it
/// fails, depends on the text alone.
#[verifier::external_body]
fn from_json(text: &str) -> (r: Option<Vec<String>>)
    ensures
        r.deep_view() == names_from_json(text@),
{
    serde_json::from_str(text).ok()
}

/// The names that a file's text holds: none where there is no file, or no list
/// in it.
pub open spec fn starred_in(text: Option<Seq<char>>) -> Seq<Seq<char>> {
    match text {
        Some(t) => match names_from_json(t) {
            Some(names) => names,
            None => Seq::empty(),
        },
        None => Seq::empty(),
    }
}

/// The starred names, from the text of their file if it could be read.
pub fn load_favorites(text: Option<&str>) -> (r: Vec<String>)
    ensures
        r.deep_view() == starred_in(text.deep_view()),
{
    match text {
        Some(t) => listed(from_json(t)),
        None => listed(None),
    }
}

/// The names that were read, none where reading failed.
pub fn listed(read: Option<Vec<String>>) -> (r: Vec<String>)
    ensures
        r.deep_view() == match read.deep_view() {
            Some(names) => names,
            None => Seq::empty(),
        },
{
    match read {
        Some(names) => names,
        None => {
            let r: Vec<String> = Vec::new();
            assert(r.deep_view() =~= Seq::empty());
            r
        },
    }
}

/// The text of the file for these names. Loading it gives the same names back.
pub fn save_favorites(names: &Vec<String>) -> (r: Option<String>)
    ensures
        r.deep_view() == Some(names_to_json(names.deep_view())),
        starred_in(r.deep_view()) == names.deep_view(),
{
    to_json(names)
}

} // verus!
