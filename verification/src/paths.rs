//! Filesystem paths written as text, and the few `std::path` operations
//! that `wt` makes on them.
//!
//! The results of `std::path` are given names here: what they compute on a
//! path (its components, with separators and `.` normalised away) is the
//! standard library's business, and the logic of `wt` is proved over the
//! names.

use vstd::prelude::*;

verus! {

/// What `std::path::Path::file_name` gives for the path written as `path`.
pub uninterp spec fn path_file_name(path: Seq<char>) -> Option<Seq<char>>;

/// What `std::path::Path::parent` gives for the path written as `path`.
pub uninterp spec fn path_parent(path: Seq<char>) -> Option<Seq<char>>;

/// What `std::path::Path::join` gives for `base` joined with `name`.
pub uninterp spec fn path_join(base: Seq<char>, name: Seq<char>) -> Seq<char>;

/// Whether `std::path::Path`'s `==` holds between the paths written as `a` and `b`.
pub uninterp spec fn path_eq(a: Seq<char>, b: Seq<char>) -> bool;

/// Calls `std::path::Path::file_name` on `path`; the contract claims only
/// that the text of the result is `path_file_name(path)`.
#[verifier::external_body]
pub(crate) fn file_name(path: &str) -> (r: Option<String>)
    ensures
        match r {
            Some(n) => path_file_name(path@) == Some(n@),
            None => path_file_name(path@) is None,
        },
{
    match std::path::Path::new(path).file_name() {
        Some(n) => Some(n.to_string_lossy().into_owned()),
        None => None,
    }
}

/// Calls `std::path::Path::parent` on `path`; the contract claims that the
/// text of the result is `path_parent(path)`, and, as the documentation says,
/// that the empty path has no parent.
#[verifier::external_body]
pub(crate) fn parent(path: &str) -> (r: Option<String>)
    ensures
        path@.len() == 0 ==> r is None,
        match r {
            Some(p) => path_parent(path@) == Some(p@),
            None => path_parent(path@) is None,
        },
{
    match std::path::Path::new(path).parent() {
        Some(p) => Some(p.to_string_lossy().into_owned()),
        None => None,
    }
}

/// A name that is one ordinary path component on every platform: not empty,
/// not `.` or `..`, and free of `/`, `\\` and `:`.
pub open spec fn is_plain_component(name: Seq<char>) -> bool {
    &&& name.len() > 0
    &&& name != "."@
    &&& name != ".."@
    &&& forall|i: int| 0 <= i < name.len() ==> #[trigger] name[i] != '/' && name[i] != '\\' && name[i] != ':'
}

/// Calls `std::path::Path::join`; the contract claims that the text of the
/// result is `path_join(base, name)` (what joining does depends on the
/// platform's path rules), and that a `name` that is one plain component
/// becomes the result's final component, its `file_name` (joining adjoins
/// `name` to `base`; `file_name` is the final component).
#[verifier::external_body]
pub(crate) fn join(base: &str, name: &str) -> (r: String)
    ensures
        r@ == path_join(base@, name@),
        is_plain_component(name@) ==> path_file_name(r@) == Some(name@),
{
    std::path::Path::new(base).join(name).to_string_lossy().into_owned()
}

/// Compares two paths with `std::path::Path`'s `==`; the contract claims that
/// the answer is `path_eq(a, b)`, and that equal texts give equal paths (`Path`
/// is `Eq`, whose `==` is reflexive).
#[verifier::external_body]
pub(crate) fn same_path(a: &str, b: &str) -> (r: bool)
    ensures
        r == path_eq(a@, b@),
        a@ == b@ ==> r,
{
    std::path::Path::new(a) == std::path::Path::new(b)
}

} // verus!
