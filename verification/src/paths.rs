//! File-system paths. The library carries them and extends them; it never
//! looks inside one. What the standard library makes of a path is known to
//! the proofs by name only.

use std::path::{Path, PathBuf};
use vstd::prelude::*;

verus! {

/// `std::path::PathBuf`, an owned path.
#[verifier::external_type_specification]
#[verifier::external_body]
pub struct ExPathBuf(PathBuf);

/// `std::path::Path`, a borrowed path.
#[verifier::external_type_specification]
#[verifier::external_body]
pub struct ExPath(Path);

/// The path that `PathBuf::from` makes of `text`.
pub uninterp spec fn path_spelled(text: Seq<char>) -> PathBuf;

/// `base` after `PathBuf::push` has extended it by `name`.
pub uninterp spec fn pushed(base: PathBuf, name: Seq<char>) -> PathBuf;

/// `path` as `PathBuf::into_boxed_path` hands it over.
pub uninterp spec fn boxed_path(path: PathBuf) -> Box<Path>;

/// The last component of `path` as `Path::file_name` gives it, as text; none
/// for a path that ends in `..` or has no component at all.
pub uninterp spec fn last_component(path: PathBuf) -> Option<Seq<char>>;

/// The path that `text` spells, made with `PathBuf::from`. The result
/// depends on the text alone, and the contract says no more than that.
#[verifier::external_body]
pub(crate) fn path_of(text: &str) -> (r: PathBuf)
    ensures
        r == path_spelled(text@),
{
    PathBuf::from(text)
}

/// `base` extended by `name` with `PathBuf::push`. The result depends on the
/// two alone, and the contract says no more than that: how they are put
/// together is the platform's matter.
#[verifier::external_body]
pub(crate) fn joined(base: PathBuf, name: &str) -> (r: PathBuf)
    ensures
        r == pushed(base, name@),
{
    let mut path = base;
    path.push(name);
    path
}

/// The path in a box, through `PathBuf::into_boxed_path`, which changes how
/// the path is held and nothing of the path.
#[verifier::external_body]
pub(crate) fn boxed(path: PathBuf) -> (r: Box<Path>)
    ensures
        r == boxed_path(path),
{
    path.into_boxed_path()
}

/// The last component of `path` as text, taken with `Path::file_name`, which
/// gives none for a path that ends in `..` or has no component at all. The
/// result depends on the path alone, and the contract says no more than
/// that: how a path is split is the platform's matter.
#[verifier::external_body]
pub(crate) fn final_component(path: &PathBuf) -> (r: Option<String>)
    ensures
        match r {
            Some(s) => last_component(*path) == Some(s@),
            None => last_component(*path) is None,
        },
{
    path.file_name().map(|n| n.to_string_lossy().to_string())
}

} // verus!
