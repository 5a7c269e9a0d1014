//! File-system paths held as strings, and the two questions the client asks
//! of them through `std::path::Path`: the extension, and whether one path lies
//! under another.
use vstd::prelude::*;

verus! {

/// What `Path::extension` reports for a path: the part of the file name
/// after its last `.`, absent when the name has no `.` other than a leading
/// one or there is no file name.
pub uninterp spec fn extension_of(path: Seq<char>) -> Option<Seq<char>>;

/// `Path::extension` on a path given as a string. The extension of a valid
/// Unicode path is itself valid Unicode, so the conversion back to `String`
/// never fails; the contract names the result rather than restating how
/// `Path` splits a file name.
#[verifier::external_body]
pub(crate) fn path_extension(path: &str) -> (r: Option<String>)
    ensures
        match r {
            Some(e) => extension_of(path@) == Some(e@),
            None => extension_of(path@) is None,
        },
{
    match std::path::Path::new(path).extension() {
        Some(e) => e.to_str().map(String::from),
        None => None,
    }
}

/// Whether `Path::starts_with` holds: `base` is a prefix of `path` compared
/// component by component.
pub uninterp spec fn path_has_prefix(path: Seq<char>, base: Seq<char>) -> bool;

/// `Path::starts_with` on paths given as strings. The contract names the
/// result rather than restating how `Path` splits components.
#[verifier::external_body]
pub(crate) fn path_starts_with(path: &str, base: &str) -> (r: bool)
    ensures
        r == path_has_prefix(path@, base@),
{
    std::path::Path::new(path).starts_with(base)
}

} // verus!
