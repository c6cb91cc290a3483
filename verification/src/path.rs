//! The file-system paths of the standard library, as far as the option
//! store needs them: a root directory is carried as a `PathBuf`, a stored
//! path is joined onto it, and the result is read back as text.
//!
//! How two paths join is a matter of the platform, and takes pages to
//! state. So the joined path and its text have names here, and nothing says
//! what they are on given values.

use std::path::PathBuf;
use vstd::prelude::*;

verus! {

/// `std::path::PathBuf`, an owned path. What it holds is not visible to
/// proofs.
#[verifier::external_type_specification]
#[verifier::external_body]
pub struct ExPathBuf(std::path::PathBuf);

/// The path that `Path::join` gives for `path` adjoined to `root`.
pub uninterp spec fn joined(root: PathBuf, path: Seq<char>) -> PathBuf;

/// The text that `Path::to_str` gives for `path`, or `None` where it gives
/// none.
pub uninterp spec fn path_text(path: PathBuf) -> Option<Seq<char>>;

/// `PathBuf::new` makes a path. The contract says nothing of the path that
/// it makes.
pub assume_specification[ std::path::PathBuf::new ]() -> std::path::PathBuf
;

/// Calls `Path::join` on `root`, which adjoins `path` to it by the rules of
/// the platform. The joined path depends on the two arguments alone; the
/// contract gives it its name and says no more of it.
#[verifier::external_body]
pub(crate) fn join(root: &PathBuf, path: &str) -> (r: PathBuf)
    ensures
        r == joined(*root, path@),
{
    root.join(path)
}

/// Calls `Path::to_str` on `path`, which gives the path as text, or `None`
/// where the path is not valid Unicode. The outcome depends on the path
/// alone; the contract gives it its name and says no more of it.
#[verifier::external_body]
pub(crate) fn as_text(path: &PathBuf) -> (r: Option<&str>)
    ensures
        match r {
            Some(s) => path_text(*path) == Some(s@),
            None => path_text(*path) is None,
        },
{
    path.to_str()
}

} // verus!
