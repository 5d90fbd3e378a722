//! Path operations, delegated to `std::path::Path`.
//!
//! Each operation is pure on its arguments (no file system access). The
//! file name, parent, joining and path equality are named by uninterpreted
//! spec functions of the path text; the stem and extension are stated over
//! the file name.
use vstd::prelude::*;
use std::path::Path;

verus! {

/// What `Path::file_name` gives for the path `p`.
pub uninterp spec fn path_file_name(p: Seq<char>) -> Option<Seq<char>>;

/// The index of the last `.` of a file name that is not its first
/// character, if there is one.
pub open spec fn last_inner_dot(name: Seq<char>) -> Option<int>
    decreases name.len(),
{
    if name.len() <= 1 {
        None
    } else if name.last() == '.' {
        Some(name.len() - 1)
    } else {
        last_inner_dot(name.drop_last())
    }
}

/// What `Path::file_stem` gives for the path `p`, as its documentation
/// states it: none without a file name; the whole file name when it has no
/// `.` past its first character; otherwise the part before the last `.`.
pub open spec fn path_file_stem(p: Seq<char>) -> Option<Seq<char>> {
    match path_file_name(p) {
        None => None,
        Some(n) => match last_inner_dot(n) {
            Some(i) => Some(n.take(i)),
            None => Some(n),
        },
    }
}

/// What `Path::extension` gives for the path `p`, as its documentation
/// states it: none without a file name or without a `.` past its first
/// character; otherwise the part after the last `.`.
pub open spec fn path_extension(p: Seq<char>) -> Option<Seq<char>> {
    match path_file_name(p) {
        None => None,
        Some(n) => match last_inner_dot(n) {
            Some(i) => Some(n.skip(i + 1)),
            None => None,
        },
    }
}

/// What `Path::parent` gives for the path `p`.
pub uninterp spec fn path_parent(p: Seq<char>) -> Option<Seq<char>>;

/// What `Path::join` gives for `base` joined with `p`.
pub uninterp spec fn path_join(base: Seq<char>, p: Seq<char>) -> Seq<char>;

/// What `Path::with_file_name` gives for `p` with its last component
/// replaced by `name`.
pub uninterp spec fn path_with_file_name(p: Seq<char>, name: Seq<char>) -> Seq<char>;

/// The text of an optional component, or the empty text.
pub open spec fn or_empty(o: Option<Seq<char>>) -> Seq<char> {
    match o {
        Some(s) => s,
        None => Seq::<char>::empty(),
    }
}

/// Trusted: calls `Path::file_name`; claims only that the result is the
/// value named `path_file_name` of the path (the path is UTF-8, so the
/// component converts without loss).
#[verifier::external_body]
pub(crate) fn file_name(p: &str) -> (r: Option<String>)
    ensures
        r matches Some(s) ==> path_file_name(p@) == Some(s@),
        r is None ==> path_file_name(p@) is None,
{
    match Path::new(p).file_name() {
        Some(s) => Some(s.to_string_lossy().into_owned()),
        None => None,
    }
}

/// Trusted: calls `Path::file_stem`; claims that the result is what its
/// documentation describes (`path_file_stem`), over the path's file name.
#[verifier::external_body]
pub(crate) fn file_stem(p: &str) -> (r: Option<String>)
    ensures
        r matches Some(s) ==> path_file_stem(p@) == Some(s@),
        r is None ==> path_file_stem(p@) is None,
{
    match Path::new(p).file_stem() {
        Some(s) => Some(s.to_string_lossy().into_owned()),
        None => None,
    }
}

/// Trusted: calls `Path::extension`; claims that the result is what its
/// documentation describes (`path_extension`), over the path's file name.
#[verifier::external_body]
pub(crate) fn extension(p: &str) -> (r: Option<String>)
    ensures
        r matches Some(s) ==> path_extension(p@) == Some(s@),
        r is None ==> path_extension(p@) is None,
{
    match Path::new(p).extension() {
        Some(s) => Some(s.to_string_lossy().into_owned()),
        None => None,
    }
}

/// Trusted: calls `Path::parent`; claims only that the result is the value
/// named `path_parent` of the path.
#[verifier::external_body]
pub(crate) fn parent(p: &str) -> (r: Option<String>)
    ensures
        r matches Some(s) ==> path_parent(p@) == Some(s@),
        r is None ==> path_parent(p@) is None,
{
    match Path::new(p).parent() {
        Some(s) => Some(s.to_string_lossy().into_owned()),
        None => None,
    }
}

/// Trusted: calls `Path::join`; claims only that the result is the value
/// named `path_join` of the two paths.
#[verifier::external_body]
pub(crate) fn join(base: &str, p: &str) -> (r: String)
    ensures
        r@ == path_join(base@, p@),
{
    Path::new(base).join(p).to_string_lossy().into_owned()
}

/// Whether `name` is one plain path component: not empty, not `.` or
/// `..`, and free of the characters that separate components or start a
/// drive prefix on any platform (`/`, `\\`, `:`).
pub open spec fn plain_name(name: Seq<char>) -> bool {
    &&& name.len() > 0
    &&& name != seq!['.']
    &&& name != seq!['.', '.']
    &&& !name.contains('/')
    &&& !name.contains('\\')
    &&& !name.contains(':')
}

/// Trusted: calls `Path::with_file_name`; claims that the result is the
/// value named `path_with_file_name` of the path and the name, and, as its
/// documentation says ("updates `self.file_name()` to `file_name`"), that
/// the result's file name is `name` when `name` is one plain component,
/// and (the old file name being popped before `name` is pushed) that a path
/// with a file name keeps its parent.
#[verifier::external_body]
pub(crate) fn with_file_name(p: &str, name: &str) -> (r: String)
    ensures
        r@ == path_with_file_name(p@, name@),
        plain_name(name@) ==> path_file_name(r@) == Some(name@),
        plain_name(name@) && path_file_name(p@) is Some ==> path_parent(r@) == path_parent(p@),
{
    Path::new(p).with_file_name(name).to_string_lossy().into_owned()
}

/// The text of an optional component, or the empty text.
pub fn unwrap_or_empty(o: Option<String>) -> (r: String)
    ensures
        r@ == or_empty(match o {
            Some(s) => Some(s@),
            None => None,
        }),
{
    match o {
        Some(s) => s,
        None => String::new(),
    }
}


/// Whether `Path` equality (component by component) holds between `a`
/// and `b`.
pub uninterp spec fn path_eq(a: Seq<char>, b: Seq<char>) -> bool;

/// Trusted: compares `Path::new(a) == Path::new(b)`; claims that the
/// result is the value named `path_eq` of the two paths, and that equal
/// texts give equal paths (`Path` is `Eq`, so its equality is reflexive).
#[verifier::external_body]
pub(crate) fn paths_equal(a: &str, b: &str) -> (r: bool)
    ensures
        r == path_eq(a@, b@),
        a@ == b@ ==> r,
{
    Path::new(a) == Path::new(b)
}

} // verus!
