//! A personal task list kept in one human-readable file per directory tree.
//!
//! The crate holds the project and task model, the index allocation policy,
//! the persisted schema, and the upward search for the nearest project file.

pub mod discovery;
pub mod document;
pub mod error;
pub mod laws;
pub mod location;
pub mod project;
pub mod schema;
pub mod task;

pub use discovery::{find_project, has_project, new_project, PROJECT_FILE_NAME};
pub use error::ProjectError;
pub use project::{Project, ProjectData};
pub use task::Task;
