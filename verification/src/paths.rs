//! The few questions the library asks of std's path handling. Paths travel
//! through the library as `String`s; these wrappers hand them to
//! `std::path::Path` and bring the answer back as a `String`.

use std::path::Path;
use vstd::prelude::*;

verus! {

/// What `Path::parent` answers for a path: the path without its final
/// component, or `None` for a root, a prefix or the empty path.
pub uninterp spec fn parent_of(path: Seq<char>) -> Option<Seq<char>>;

/// What `Path::file_name` answers for a path: its final component when that is
/// a normal name, `None` when the path ends in `..`, is a root, or is empty.
pub uninterp spec fn file_name_of(path: Seq<char>) -> Option<Seq<char>>;

/// What `{:?}` writes for a file name held as an `OsStr`: the name quoted,
/// with quotes, apostrophes, backslashes and control characters escaped.
pub uninterp spec fn os_debug_text_of(name: Seq<char>) -> Seq<char>;

/// What `==` on two `Path`s answers: whether they have the same components
/// (so `/a/` and `/a`, or `//` and `/`, are the same path).
pub uninterp spec fn same_path(a: Seq<char>, b: Seq<char>) -> bool;

/// Two paths are equal as paths: texts that are equal always are, and
/// `same_path` decides the rest.
pub open spec fn paths_equal(a: Seq<char>, b: Seq<char>) -> bool {
    a == b || same_path(a, b)
}

/// Calls `std::path::Path::parent`. Trusted: the result is `parent_of` of the
/// argument, and, as the documentation says that the parent is the path
/// without its final component, a parent is strictly shorter than the path.
#[verifier::external_body]
pub(crate) fn path_parent(path: &str) -> (parent: Option<String>)
    ensures
        parent matches Some(p) ==> parent_of(path@) == Some(p@) && p@.len() < path@.len(),
        parent is None ==> parent_of(path@) is None,
{
    match Path::new(path).parent() {
        Some(p) => Some(p.to_string_lossy().into_owned()),
        None => None,
    }
}

/// Calls `std::path::Path::file_name`. Trusted: the result is `file_name_of`
/// of the argument; nothing else is claimed of it.
#[verifier::external_body]
pub(crate) fn path_file_name(path: &str) -> (name: Option<String>)
    ensures
        name matches Some(n) ==> file_name_of(path@) == Some(n@),
        name is None ==> file_name_of(path@) is None,
{
    match Path::new(path).file_name() {
        Some(n) => Some(n.to_string_lossy().into_owned()),
        None => None,
    }
}

/// Formats a file name with `{:?}` as an `OsStr` (`Path::as_os_str`). Trusted: the result is
/// `os_debug_text_of` of the argument; nothing else is claimed of it.
#[verifier::external_body]
pub(crate) fn os_debug_text(name: &str) -> (quoted: String)
    ensures
        quoted@ == os_debug_text_of(name@),
{
    format!("{:?}", Path::new(name).as_os_str())
}

/// Compares two paths with `Path`'s `==`. Trusted: the result is
/// `same_path` of the arguments, and, as `Path` is `Eq` (so `==` is
/// reflexive), equal texts compare equal.
#[verifier::external_body]
pub(crate) fn path_eq(a: &str, b: &str) -> (equal: bool)
    ensures
        equal == same_path(a@, b@),
        a@ == b@ ==> equal,
{
    Path::new(a) == Path::new(b)
}

} // verus!
