//! Path operations, performed by `camino` on UTF-8 paths held as strings.
//!
//! What each operation returns is named by an uninterpreted function of the
//! strings involved, but for the extension, which camino's documentation
//! states in terms of the file name; the library's contracts are stated
//! over these names.

use camino::Utf8Path;
use vstd::prelude::*;

use crate::text::rsplit_once;

verus! {

/// What `Utf8Path::join` returns for `base` joined with `rest`.
pub uninterp spec fn path_join(base: Seq<char>, rest: Seq<char>) -> Seq<char>;

/// What `Utf8Path::file_name` returns for `p`.
pub uninterp spec fn path_file_name(p: Seq<char>) -> Option<Seq<char>>;

/// What `Utf8Path::extension` returns for `p`, as its documentation states
/// it: nothing where `p` has no file name, else the part of the file name
/// after its last `.`, unless the name has no `.` or its only `.` is its
/// first character.
pub open spec fn path_extension(p: Seq<char>) -> Option<Seq<char>> {
    match path_file_name(p) {
        None => None,
        Some(n) => match rsplit_once(n, '.') {
            Some((stem, ext)) => if stem.len() == 0 {
                None
            } else {
                Some(ext)
            },
            None => None,
        },
    }
}

/// What `Utf8Path::with_extension` returns for `p` and `ext`.
pub uninterp spec fn path_with_extension(p: Seq<char>, ext: Seq<char>) -> Seq<char>;

/// What `Utf8Path::with_file_name` returns for `p` and `name`.
pub uninterp spec fn path_with_file_name(p: Seq<char>, name: Seq<char>) -> Seq<char>;

/// What `Utf8Path::parent` returns for `p`.
pub uninterp spec fn path_parent(p: Seq<char>) -> Option<Seq<char>>;

/// What `Utf8Path::strip_prefix` returns for `p` and `base` (component-wise).
pub uninterp spec fn path_strip_prefix(p: Seq<char>, base: Seq<char>) -> Option<Seq<char>>;

/// `base.join(rest)` with `camino::Utf8Path::join`; the result is named by `path_join`.
#[verifier::external_body]
pub(crate) fn join(base: &str, rest: &str) -> (r: String)
    ensures
        r@ == path_join(base@, rest@),
{
    Utf8Path::new(base).join(rest).into_string()
}

/// The final component of `p`, with `camino::Utf8Path::file_name`; a
/// component holds no separator.
#[verifier::external_body]
pub(crate) fn file_name(p: &str) -> (r: Option<String>)
    ensures
        r matches Some(n) ==> path_file_name(p@) == Some(n@),
        r matches Some(n) ==> !n@.contains('/'),
        r is None ==> path_file_name(p@) is None,
{
    Utf8Path::new(p).file_name().map(|n| n.to_string())
}

/// The extension of `p`, with `camino::Utf8Path::extension`, which takes
/// the file name of `p` and splits it at its last `.` (so it holds no
/// separator).
#[verifier::external_body]
pub(crate) fn extension(p: &str) -> (r: Option<String>)
    ensures
        r matches Some(e) ==> path_extension(p@) == Some(e@),
        r matches Some(e) ==> !e@.contains('/'),
        r is None ==> path_extension(p@) is None,
{
    Utf8Path::new(p).extension().map(|e| e.to_string())
}

/// `p` with its extension replaced by `ext`, with
/// `camino::Utf8Path::with_extension`, which hands the work to std's
/// `PathBuf::set_extension`; std documents a panic for an extension holding
/// a path separator, which the precondition leaves out.
#[verifier::external_body]
pub(crate) fn with_extension(p: &str, ext: &str) -> (r: String)
    requires
        !ext@.contains('/'),
    ensures
        r@ == path_with_extension(p@, ext@),
{
    Utf8Path::new(p).with_extension(ext).into_string()
}

/// `p` with its final component replaced by `name`, with `camino::Utf8Path::with_file_name`.
#[verifier::external_body]
pub(crate) fn with_file_name(p: &str, name: &str) -> (r: String)
    ensures
        r@ == path_with_file_name(p@, name@),
{
    Utf8Path::new(p).with_file_name(name).into_string()
}

/// The parent of `p`, with `camino::Utf8Path::parent`.
#[verifier::external_body]
pub(crate) fn parent(p: &str) -> (r: Option<String>)
    ensures
        r matches Some(q) ==> path_parent(p@) == Some(q@),
        r is None ==> path_parent(p@) is None,
{
    Utf8Path::new(p).parent().map(|q| q.to_string())
}

/// `p` relative to `base`, with `camino::Utf8Path::strip_prefix`.
#[verifier::external_body]
pub(crate) fn strip_prefix(p: &str, base: &str) -> (r: Option<String>)
    ensures
        r matches Some(q) ==> path_strip_prefix(p@, base@) == Some(q@),
        r is None ==> path_strip_prefix(p@, base@) is None,
{
    Utf8Path::new(p).strip_prefix(base).ok().map(|q| q.to_string())
}

} // verus!
