//! File-system paths read as text, through `std::path`.

use vstd::prelude::*;

verus! {

/// The parent of a path as `Path::parent` finds it, shown as text.
pub uninterp spec fn path_parent(p: Seq<char>) -> Option<Seq<char>>;

/// The last component of a path as `Path::file_name` finds it.
pub uninterp spec fn path_file_name(p: Seq<char>) -> Option<Seq<char>>;

/// The last component of a path without its extension (`Path::file_stem`).
pub uninterp spec fn path_file_stem(p: Seq<char>) -> Option<Seq<char>>;

/// Whether a path is absolute (`Path::is_absolute`).
pub uninterp spec fn path_is_absolute(p: Seq<char>) -> bool;

/// A path extended by another (`Path::join`), shown as text.
pub uninterp spec fn path_join(base: Seq<char>, rel: Seq<char>) -> Seq<char>;

/// `Path::parent`, with the parent shown through `Path::display`. The contract
/// names the result and says nothing of how the components are found.
#[verifier::external_body]
pub(crate) fn parent_of(p: &str) -> (res: Option<String>)
    ensures
        res.deep_view() == path_parent(p@),
{
    match std::path::Path::new(p).parent() {
        Some(parent) => Some(parent.display().to_string()),
        None => None,
    }
}

/// `Path::file_name`, converted with `OsStr::to_string_lossy`; the contract
/// only names the result.
#[verifier::external_body]
pub(crate) fn file_name_of(p: &str) -> (res: Option<String>)
    ensures
        res.deep_view() == path_file_name(p@),
{
    match std::path::Path::new(p).file_name() {
        Some(name) => Some(name.to_string_lossy().to_string()),
        None => None,
    }
}

/// `Path::file_stem`, converted with `OsStr::to_string_lossy`; the contract
/// only names the result.
#[verifier::external_body]
pub(crate) fn file_stem_of(p: &str) -> (res: Option<String>)
    ensures
        res.deep_view() == path_file_stem(p@),
{
    match std::path::Path::new(p).file_stem() {
        Some(stem) => Some(stem.to_string_lossy().to_string()),
        None => None,
    }
}

/// `Path::is_absolute`; the contract only names the result.
#[verifier::external_body]
pub(crate) fn is_absolute_path(p: &str) -> (res: bool)
    ensures
        res == path_is_absolute(p@),
{
    std::path::Path::new(p).is_absolute()
}

/// `Path::join`, shown through `Path::display`; the contract only names the result.
#[verifier::external_body]
pub(crate) fn join_path(base: &str, rel: &str) -> (res: String)
    ensures
        res@ == path_join(base@, rel@),
{
    std::path::Path::new(base).join(rel).display().to_string()
}

} // verus!
