//! File-system path comparisons, by std's `Path` (component-wise).
use std::path::Path;
use vstd::prelude::*;

verus! {

/// Name for what std's `Path::parent` returns for a path given as text:
/// the path without its last component, if it has a parent.
pub uninterp spec fn parent_of(path: Seq<char>) -> Option<Seq<char>>;

/// Name for what std's `==` on `Path` returns: the two paths have the same components.
pub uninterp spec fn same_path(a: Seq<char>, b: Seq<char>) -> bool;

/// Name for what std's `Path::starts_with` returns: `base`'s components
/// are a prefix of `path`'s components.
pub uninterp spec fn path_has_prefix(path: Seq<char>, base: Seq<char>) -> bool;

/// Name for what std's `Path::file_name` followed by `OsStr::to_str` returns
/// for a path given as text: its last component, when it is a normal one.
pub uninterp spec fn file_name_of(path: Seq<char>) -> Option<Seq<char>>;

/// The last component of `path` (std's `Path::file_name`, as text).
/// Trusted: the result is `file_name_of(path)`.
#[verifier::external_body]
pub(crate) fn path_file_name(path: &str) -> (r: Option<String>)
    ensures
        match r {
            Some(n) => file_name_of(path@) == Some(n@),
            None => file_name_of(path@) is None,
        },
{
    match Path::new(path).file_name().and_then(|n| n.to_str()) {
        Some(n) => Some(n.to_string()),
        None => None,
    }
}

/// The parent of `path`, by std's `Path::parent` (a prefix of the text of `path`,
/// converted back to text). Trusted: the result is `parent_of(path)`.
#[verifier::external_body]
pub(crate) fn path_parent(path: &str) -> (r: Option<String>)
    ensures
        match r {
            Some(p) => parent_of(path@) == Some(p@),
            None => parent_of(path@) is None,
        },
{
    match Path::new(path).parent() {
        Some(p) => Some(p.to_string_lossy().into_owned()),
        None => None,
    }
}

/// Whether two paths are equal by std's `PartialEq for Path`.
/// Trusted: the result is `same_path(a, b)`.
#[verifier::external_body]
pub(crate) fn paths_equal(a: &str, b: &str) -> (r: bool)
    ensures
        r == same_path(a@, b@),
{
    Path::new(a) == Path::new(b)
}

/// Whether `path` lies under `base` by std's `Path::starts_with`.
/// Trusted: the result is `path_has_prefix(path, base)`.
#[verifier::external_body]
pub(crate) fn path_starts_with(path: &str, base: &str) -> (r: bool)
    ensures
        r == path_has_prefix(path@, base@),
{
    Path::new(path).starts_with(base)
}

} // verus!
