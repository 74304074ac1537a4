//! Paths as text. Joining paths and telling a file's extension are left to
//! `camino`, which follows the rules of the platform; the library only names
//! what comes back.

use camino::Utf8Path;
use vstd::prelude::*;

verus! {

/// The path that `camino::Utf8Path::join` makes of `base` and `path`.
pub uninterp spec fn joined_path(base: Seq<char>, path: Seq<char>) -> Seq<char>;

/// The extension that `camino::Utf8Path::extension` finds in `path`.
pub uninterp spec fn extension_of(path: Seq<char>) -> Option<Seq<char>>;

/// What an optional text holds, as contracts speak of it.
pub open spec fn text_of(text: Option<String>) -> Option<Seq<char>> {
    match text {
        Some(t) => Some(t@),
        None => None,
    }
}

/// Calls `camino::Utf8Path::join` on `base` with `path` as its argument. The
/// result is a function of the two texts alone; nothing else is claimed of it.
#[verifier::external_body]
pub(crate) fn join(base: &str, path: &str) -> (joined: String)
    ensures
        joined@ == joined_path(base@, path@),
{
    Utf8Path::new(base).join(path).into_string()
}

/// Calls `camino::Utf8Path::extension` on `path`. The result is a function
/// of the text alone; nothing else is claimed of it.
#[verifier::external_body]
pub(crate) fn extension(path: &str) -> (found: Option<String>)
    ensures
        text_of(found) == extension_of(path@),
{
    Utf8Path::new(path).extension().map(String::from)
}

} // verus!
