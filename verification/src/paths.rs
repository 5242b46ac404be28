//! File-system paths, written as `/`-separated strings and taken apart by
//! `std::path::Path`. What `Path` computes from a string is named here, not
//! written out: each name is applied by exactly one wrapper.
use std::path::Path;
use std::path::PathBuf;
use vstd::prelude::*;

verus! {

/// The view of an optional string.
pub open spec fn opt_view(o: Option<String>) -> Option<Seq<char>> {
    match o {
        Some(s) => Some(s@),
        None => None,
    }
}

/// The views of a sequence of strings.
pub open spec fn strs_view(v: Seq<String>) -> Seq<Seq<char>> {
    v.map_values(|s: String| s@)
}

/// A component that names a file or directory: not empty, not `.` or `..`,
/// and without `/`.
pub open spec fn is_name(c: Seq<char>) -> bool {
    c.len() > 0 && c != "."@ && c != ".."@ && !c.contains('/')
}

/// The `/`-separated pieces of a specifier (`n` separators give `n + 1` pieces).
pub open spec fn split_slash(s: Seq<char>) -> Seq<Seq<char>>
    decreases s.len(),
{
    if s.len() == 0 {
        seq![Seq::empty()]
    } else {
        let rest = split_slash(s.drop_first());
        if s[0] == '/' {
            seq![Seq::empty()] + rest
        } else {
            rest.update(0, seq![s[0]] + rest[0])
        }
    }
}

/// The path is `/` alone, or `/` followed by names separated by single `/`s.
pub open spec fn is_rooted_names(path: Seq<char>) -> bool {
    &&& path.len() > 0
    &&& path[0] == '/'
    &&& path.len() == 1 || forall|i: int|
        0 <= i < split_slash(path.skip(1)).len() ==> is_name(#[trigger] split_slash(path.skip(1))[i])
}

/// The components of such a path: the root `/`, then its names.
pub open spec fn rooted_components(path: Seq<char>) -> Seq<Seq<char>> {
    if path.len() <= 1 {
        seq!["/"@]
    } else {
        seq!["/"@] + split_slash(path.skip(1))
    }
}

/// What `Path::extension` returns for the path.
pub uninterp spec fn path_extension(path: Seq<char>) -> Option<Seq<char>>;

/// What `Path::file_stem` returns for the path.
pub uninterp spec fn path_file_stem(path: Seq<char>) -> Option<Seq<char>>;

/// The path after `PathBuf::set_extension("")`.
pub uninterp spec fn path_without_extension(path: Seq<char>) -> Seq<char>;

/// What `Path::parent` returns for the path.
pub uninterp spec fn path_parent(path: Seq<char>) -> Option<Seq<char>>;

/// What `Path::components` yields for the path, each component as its string.
pub uninterp spec fn path_components(path: Seq<char>) -> Seq<Seq<char>>;

/// What `Path::join` returns for the two paths.
pub uninterp spec fn path_join(base: Seq<char>, rest: Seq<char>) -> Seq<char>;

/// What `==` on two `Path`s returns.
pub uninterp spec fn path_eq(a: Seq<char>, b: Seq<char>) -> bool;

/// Compares two paths with `==` on `std::path::Path`, which compares their
/// components. The contract claims only that the answer is `path_eq` of the
/// two strings: that `==` on paths depends on nothing else.
#[verifier::external_body]
pub(crate) fn same_path(a: &str, b: &str) -> (r: bool)
    ensures
        r == path_eq(a@, b@),
{
    Path::new(a) == Path::new(b)
}

/// Calls `std::path::Path::extension` (the extension of the path's file name,
/// if it has one) on the string taken as a path. The contract claims only that
/// the result is `path_extension` of the string: it depends on nothing else.
#[verifier::external_body]
pub(crate) fn extension(path: &str) -> (r: Option<String>)
    ensures
        opt_view(r) == path_extension(path@),
{
    Path::new(path).extension().and_then(|e| e.to_str()).map(|e| e.to_string())
}

/// Calls `std::path::Path::file_stem` (the file name without its extension).
/// The contract claims only that the result is `path_file_stem` of the string.
#[verifier::external_body]
pub(crate) fn file_stem(path: &str) -> (r: Option<String>)
    ensures
        opt_view(r) == path_file_stem(path@),
{
    Path::new(path).file_stem().and_then(|e| e.to_str()).map(|e| e.to_string())
}

/// Calls `std::path::PathBuf::set_extension` with the empty extension, which
/// removes the extension of the path's file name (and cannot panic, the empty
/// extension holding no separator). The contract claims only that the result
/// is `path_without_extension` of the string.
#[verifier::external_body]
pub(crate) fn without_extension(path: &str) -> (r: String)
    ensures
        r@ == path_without_extension(path@),
{
    let mut buf = PathBuf::from(path);
    buf.set_extension("");
    buf.to_string_lossy().into_owned()
}

/// Calls `std::path::Path::parent` (the path without its last component).
/// The contract claims that the result is `path_parent` of the string, and
/// that it is `Some` when the path has a file stem: `parent` returns `None`
/// only for a path that ends in a root or prefix, or is empty, and such a
/// path has no file name, hence no stem.
#[verifier::external_body]
pub(crate) fn parent(path: &str) -> (r: Option<String>)
    ensures
        opt_view(r) == path_parent(path@),
        path_file_stem(path@) is Some ==> r is Some,
{
    Path::new(path).parent().map(|p| p.to_string_lossy().into_owned())
}

/// Calls `std::path::Path::components`, giving each component as the string it
/// stands for (`/` for the root, `.` and `..` for the current and parent
/// directory; distinct components give distinct strings). The contract claims
/// that the result is `path_components` of the string, and, as the
/// documentation of `Path::components` says of a path that starts with the
/// root and has only names between single separators, that it is the root
/// `/` followed by those names.
#[verifier::external_body]
pub(crate) fn components(path: &str) -> (r: Vec<String>)
    ensures
        strs_view(r@) == path_components(path@),
        is_rooted_names(path@) ==> strs_view(r@) == rooted_components(path@),
{
    let mut v = Vec::new();
    for c in Path::new(path).components() {
        v.push(c.as_os_str().to_string_lossy().into_owned());
    }
    v
}

/// Calls `std::path::Path::join` (`rest` appended to `base`, or `rest` alone
/// when it is absolute). The contract claims only that the result is
/// `path_join` of the two strings.
#[verifier::external_body]
pub(crate) fn join(base: &str, rest: &str) -> (r: String)
    ensures
        r@ == path_join(base@, rest@),
{
    Path::new(base).join(rest).to_string_lossy().into_owned()
}

} // verus!
