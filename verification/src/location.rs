//! File-system paths as the library sees them: opaque values that are
//! carried through and compared, never taken apart.
//!
//! Nothing in this file is proved. Each item states what `std::path` does.

use std::path::{Path, PathBuf};
use vstd::prelude::*;

verus! {

/// `std::path::PathBuf`, carried as an opaque value.
#[verifier::external_type_specification]
#[verifier::external_body]
pub struct ExPathBuf(PathBuf);

/// `std::path::Path`, carried as an opaque value.
#[verifier::external_type_specification]
#[verifier::external_body]
pub struct ExPath(Path);

/// The path that `Path::join` makes of a directory and a name.
pub uninterp spec fn joined(dir: &Path, name: Seq<char>) -> PathBuf;

/// What `Path::ancestors` yields for a path: the path itself, then its
/// parent, the parent of that, and so on.
pub uninterp spec fn ancestors_of(path: &Path) -> Seq<&Path>;

/// `Path::join` with a string: the joined path, which depends on the two
/// arguments alone.
#[verifier::external_body]
pub(crate) fn join(dir: &Path, name: &str) -> (file: PathBuf)
    ensures
        file == joined(dir, name@),
{
    dir.join(name)
}

/// `Path::ancestors`, collected: at least one path, the first of them the
/// path itself.
#[verifier::external_body]
pub(crate) fn ancestors<'a>(path: &'a Path) -> (dirs: Vec<&'a Path>)
    ensures
        dirs@ == ancestors_of(path),
        dirs@.len() >= 1,
        dirs@[0] == path,
{
    path.ancestors().collect()
}

/// `Path::exists`. The answer depends on what is on disk at the moment of
/// the call, so nothing is stated of it.
#[verifier::external_body]
pub(crate) fn path_exists(file: &PathBuf) -> bool {
    file.exists()
}

/// `Path::is_file`. The answer depends on what is on disk at the moment of
/// the call, so nothing is stated of it.
#[verifier::external_body]
pub(crate) fn path_is_file(file: &PathBuf) -> bool {
    file.is_file()
}

} // verus!
