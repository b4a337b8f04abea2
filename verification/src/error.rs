//! The ways in which an operation of the library fails.

use vstd::prelude::*;

verus! {

/// Why an operation failed.
#[derive(Debug, Clone, Copy, PartialEq, Eq)]
pub enum ProjectError {
    /// No directory on the way up to the root holds a project file.
    NotFound,
    /// The text of a project file is not a document of the expected shape.
    Parse,
    /// The project cannot be written down in the persisted format.
    Serialize,
    /// No task of the project carries the index that was asked for.
    IndexNotFound { index: usize },
}

} // verus!
