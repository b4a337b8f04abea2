//! Finding the project that a directory belongs to: the nearest directory,
//! from the starting one upwards, that holds a project file.

use crate::error::ProjectError;
use crate::location::{ancestors, ancestors_of, join, joined, path_exists, path_is_file};
use crate::project::Project;
use crate::task::TaskView;
use std::path::{Path, PathBuf};
use vstd::prelude::*;

verus! {

/// The name of the project file, one per directory.
pub const PROJECT_FILE_NAME: &'static str = ".tutel.toml";

/// The place of the project file of a directory.
pub open spec fn project_file_in(dir: &Path) -> PathBuf {
    joined(dir, PROJECT_FILE_NAME@)
}

/// A new project without tasks whose file lies in `dir`. Nothing is
/// written: the caller saves the project.
pub fn new_project(dir: &Path, name: String) -> (project: Project)
    ensures
        project.path == project_file_in(dir),
        project.steps == 0,
        project.data@.name == name@,
        project.data@.tasks == Seq::<TaskView>::empty(),
{
    let path = join(dir, PROJECT_FILE_NAME);
    Project::new(path, name.as_str())
}

/// The place of the project file of `path`, where the directory holds a
/// regular file of that name at the moment of the call.
pub fn has_project(path: &Path) -> (found: Option<PathBuf>)
    ensures
        found matches Some(file) ==> file == project_file_in(path),
{
    let project = join(path, PROJECT_FILE_NAME);
    let exists = path_exists(&project);
    let is_file = exists && path_is_file(&project);
    project_if_present(project, exists, is_file)
}

/// What a look at the place `file` gives, once the file system has said
/// whether anything exists there and whether it is a regular file: the
/// place itself where both hold, nothing otherwise.
pub fn project_if_present(file: PathBuf, exists: bool, is_file: bool) -> (found: Option<PathBuf>)
    ensures
        found == if exists && is_file {
            Some(file)
        } else {
            None::<PathBuf>
        },
{
    if exists && is_file {
        Some(file)
    } else {
        None
    }
}

/// What the walk does once it has looked into one directory.
#[derive(Debug, PartialEq, Eq)]
pub enum Step {
    /// The directory holds a project file: the walk ends there.
    Found { file: PathBuf, depth: usize },
    /// It holds none: the walk goes on with the directory `depth` steps up.
    Up { depth: usize },
    /// It holds none and has no parent: the walk ends without a project.
    End,
}

/// The step after the directory `depth` steps up has been looked into and
/// `hit` was found there, on a way up that has `levels` directories.
pub fn next_step(hit: Option<PathBuf>, depth: usize, levels: usize) -> (step: Step)
    ensures
        step == match hit {
            Some(file) => Step::Found { file, depth },
            None => if depth + 1 < levels {
                Step::Up { depth: (depth + 1) as usize }
            } else {
                Step::End
            },
        },
{
    match hit {
        Some(file) => Step::Found { file, depth },
        None => if depth < levels && depth + 1 < levels {
            Step::Up { depth: depth + 1 }
        } else {
            Step::End
        },
    }
}

/// Walks from `path` upwards, the directory itself first, and stops at the
/// first directory that holds a project file: the result is the place of
/// that file and the number of steps taken upwards. Where no directory up
/// to the root holds one, the walk fails with `NotFound`.
pub fn find_project(path: &Path) -> (found: Result<(PathBuf, usize), ProjectError>)
    ensures
        match found {
            Ok((file, depth)) => {
                &&& depth < ancestors_of(path).len()
                &&& file == project_file_in(ancestors_of(path)[depth as int])
                &&& depth == 0 ==> file == project_file_in(path)
            },
            Err(e) => e == ProjectError::NotFound,
        },
{
    let dirs = ancestors(path);
    let mut depth: usize = 0;
    loop
        invariant
            dirs@ == ancestors_of(path),
            dirs@[0] == path,
            depth < dirs.len(),
        decreases dirs.len() - depth,
    {
        match next_step(has_project(dirs[depth]), depth, dirs.len()) {
            Step::Found { file, depth } => return Ok((file, depth)),
            Step::Up { depth: above } => depth = above,
            Step::End => return Err(ProjectError::NotFound),
        }
    }
}

} // verus!
