//! Path operations of `std::path` and `pathdiff`, on UTF-8 strings.
//!
//! Each result is named by a spec function of the arguments alone; nothing in
//! this crate says what those functions compute, so every contract that uses
//! them passes the result on unchanged.
use vstd::prelude::*;

verus! {

/// What `Path::join` gives for `base` and `part`.
pub uninterp spec fn path_joined(base: Seq<char>, part: Seq<char>) -> Seq<char>;

/// What `Path::with_extension` gives for `path` and `extension`.
pub uninterp spec fn path_with_extension(path: Seq<char>, extension: Seq<char>) -> Seq<char>;

/// What `Path::parent` gives for `path`.
pub uninterp spec fn path_parent(path: Seq<char>) -> Option<Seq<char>>;

/// What `Path::file_name` gives for `path`.
pub uninterp spec fn path_file_name(path: Seq<char>) -> Option<Seq<char>>;

/// What `pathdiff::diff_paths` gives for `path` relative to `base`.
pub uninterp spec fn path_relative_to(path: Seq<char>, base: Seq<char>) -> Option<Seq<char>>;

/// Calls `std::path::Path::join`: `part` adjoined to `base`. The result is
/// claimed to be `path_joined` of the two arguments.
#[verifier::external_body]
pub(crate) fn join(base: &str, part: &str) -> (res: String)
    ensures
        res@ == path_joined(base@, part@),
{
    std::path::Path::new(base).join(part).to_string_lossy().into_owned()
}

/// Whether `s` holds no path separator (`/`, on Unix).
pub open spec fn free_of_separator(s: Seq<char>) -> bool {
    !s.contains('/')
}

/// Calls `std::path::Path::with_extension`: `path` with its extension set to
/// `extension`. The result is claimed to be `path_with_extension` of the
/// arguments. std panics when the extension holds a path separator, so such
/// an extension is not admitted.
#[verifier::external_body]
pub(crate) fn with_extension(path: &str, extension: &str) -> (res: String)
    requires
        free_of_separator(extension@),
    ensures
        res@ == path_with_extension(path@, extension@),
{
    std::path::Path::new(path).with_extension(extension).to_string_lossy().into_owned()
}

/// Calls `std::path::Path::parent`: `path` without its last component, if it
/// has one. The result is claimed to be `path_parent` of `path`.
#[verifier::external_body]
pub(crate) fn parent(path: &str) -> (res: Option<String>)
    ensures
        res matches Some(p) ==> path_parent(path@) == Some(p@),
        res is None ==> path_parent(path@) is None,
{
    match std::path::Path::new(path).parent() {
        Some(p) => Some(p.to_string_lossy().into_owned()),
        None => None,
    }
}

/// Calls `std::path::Path::file_name`: the last component of `path`, if it is
/// a normal one. The result is claimed to be `path_file_name` of `path`.
#[verifier::external_body]
pub(crate) fn file_name(path: &str) -> (res: Option<String>)
    ensures
        res matches Some(n) ==> path_file_name(path@) == Some(n@),
        res is None ==> path_file_name(path@) is None,
{
    match std::path::Path::new(path).file_name() {
        Some(n) => Some(n.to_string_lossy().into_owned()),
        None => None,
    }
}

/// Calls `pathdiff::diff_paths`: the path that leads from `base` to `path`,
/// if there is one. The result is claimed to be `path_relative_to` of the arguments.
#[verifier::external_body]
pub(crate) fn diff_paths(path: &str, base: &str) -> (res: Option<String>)
    ensures
        res matches Some(r) ==> path_relative_to(path@, base@) == Some(r@),
        res is None ==> path_relative_to(path@, base@) is None,
{
    match pathdiff::diff_paths(path, base) {
        Some(r) => Some(r.to_string_lossy().into_owned()),
        None => None,
    }
}

} // verus!
