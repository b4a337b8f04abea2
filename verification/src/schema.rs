//! The persisted form of a project: a TOML table with the project's `name`
//! and its `tasks`, each task a table of `desc`, `completed` and `index`.
//! Other keys are passed over on reading and never written.

use crate::document::{array_value, boolean_value, content_of, contents_of, empty_table, get,
    integer_value, parse, parsed, plain, render, rendered, string_value, table_value, Content,
    Entries};
use crate::error::ProjectError;
use crate::project::{Project, ProjectData, ProjectDataView};
use crate::task::{Task, TaskView};
use std::path::PathBuf;
use vstd::prelude::*;

verus! {

/// The task that a TOML value stands for: a table whose `desc` is a string,
/// whose `completed` is a boolean and whose `index` is an integer that is
/// not negative and fits the machine. Any other value stands for none.
pub open spec fn decode_task(item: Content) -> Option<TaskView> {
    match item {
        Content::Table(entries) => if entries.contains_key("desc"@) && entries.contains_key(
            "completed"@,
        ) && entries.contains_key("index"@) {
            match (entries["desc"@], entries["completed"@], entries["index"@]) {
                (
                    Content::String(desc),
                    Content::Boolean(completed),
                    Content::Integer(index),
                ) => if 0 <= index <= usize::MAX {
                    Some(TaskView { desc, index: index as usize, completed })
                } else {
                    None
                },
                _ => None,
            }
        } else {
            None
        },
        _ => None,
    }
}

/// The tasks that a list of TOML values stands for, in the same order, where
/// each of the values stands for a task.
pub open spec fn decode_tasks(items: Seq<Content>) -> Option<Seq<TaskView>> {
    if forall|i: int| 0 <= i < items.len() ==> decode_task(#[trigger] items[i]) is Some {
        Some(Seq::new(items.len(), |i: int| decode_task(items[i]).unwrap()))
    } else {
        None
    }
}

/// The project that a TOML document stands for: a table whose `name` is a
/// string and whose `tasks` is an array of tasks.
pub open spec fn decode_project(document: Content) -> Option<ProjectDataView> {
    match document {
        Content::Table(entries) => if entries.contains_key("name"@) && entries.contains_key(
            "tasks"@,
        ) {
            match (entries["name"@], entries["tasks"@]) {
                (Content::String(name), Content::Array(items)) => match decode_tasks(items) {
                    Some(tasks) => Some(ProjectDataView { name, tasks }),
                    None => None,
                },
                _ => None,
            }
        } else {
            None
        },
        _ => None,
    }
}

/// The table that is written for a task. TOML integers are signed and 64
/// bits wide: a task with a greater index has no written form.
pub open spec fn encode_task(task: TaskView) -> Option<Content> {
    if task.index <= i64::MAX {
        Some(
            Content::Table(
                Entries::empty().insert("desc"@, Content::String(task.desc)).insert(
                    "index"@,
                    Content::Integer(task.index as i64),
                ).insert("completed"@, Content::Boolean(task.completed)),
            ),
        )
    } else {
        None
    }
}

/// The tables that are written for a list of tasks, in the same order, where
/// each of the tasks has a written form.
pub open spec fn encode_tasks(tasks: Seq<TaskView>) -> Option<Seq<Content>> {
    if forall|i: int| 0 <= i < tasks.len() ==> encode_task(#[trigger] tasks[i]) is Some {
        Some(Seq::new(tasks.len(), |i: int| encode_task(tasks[i]).unwrap()))
    } else {
        None
    }
}

/// The document that is written for a project.
pub open spec fn encode_project(data: ProjectDataView) -> Option<Content> {
    match encode_tasks(data.tasks) {
        Some(items) => Some(
            Content::Table(
                Entries::empty().insert("name"@, Content::String(data.name)).insert(
                    "tasks"@,
                    Content::Array(items),
                ),
            ),
        ),
        None => None,
    }
}

/// The project that the text of a project file stands for: the text is
/// TOML, and the document stands for a project.
pub open spec fn loaded(text: Seq<char>) -> Option<ProjectDataView> {
    match parsed(text) {
        Some(document) => decode_project(document),
        None => None,
    }
}

/// The text that is written to the project file: the document of the
/// project, printed.
pub open spec fn saved(data: ProjectDataView) -> Option<Seq<char>> {
    match encode_project(data) {
        Some(document) => rendered(document),
        None => None,
    }
}

/// The keys of the schema differ from one another where they share a table.
proof fn keys_differ()
    ensures
        "desc"@ != "index"@,
        "desc"@ != "completed"@,
        "index"@ != "completed"@,
        "name"@ != "tasks"@,
{
    reveal_strlit("desc");
    reveal_strlit("index");
    reveal_strlit("completed");
    reveal_strlit("name");
    reveal_strlit("tasks");
    assert("desc"@.len() == 4);
    assert("index"@.len() == 5);
    assert("completed"@.len() == 9);
    assert("name"@.len() == 4);
    assert("tasks"@.len() == 5);
}

impl Task {
    /// Reads a task from the TOML value that stands for it.
    pub fn from_toml(item: &toml::Value) -> (task: Result<Task, ProjectError>)
        ensures
            match task {
                Ok(task) => decode_task(content_of(*item)) == Some(task@),
                Err(e) => e == ProjectError::Parse && decode_task(content_of(*item)) is None,
            },
    {
        let desc = match get(item, "desc") {
            Some(value) => match value.as_str() {
                Some(desc) => desc,
                None => return Err(ProjectError::Parse),
            },
            None => return Err(ProjectError::Parse),
        };
        let completed = match get(item, "completed") {
            Some(value) => match value.as_bool() {
                Some(completed) => completed,
                None => return Err(ProjectError::Parse),
            },
            None => return Err(ProjectError::Parse),
        };
        let index = match get(item, "index") {
            Some(value) => match value.as_integer() {
                Some(index) => index,
                None => return Err(ProjectError::Parse),
            },
            None => return Err(ProjectError::Parse),
        };
        if index < 0 || index as u64 > usize::MAX as u64 {
            return Err(ProjectError::Parse);
        }
        Ok(Task::new(desc, completed, index as usize))
    }

    /// The TOML table that is written for the task.
    pub fn to_toml(&self) -> (item: Result<toml::Value, ProjectError>)
        ensures
            match item {
                Ok(item) => encode_task(self@) == Some(content_of(item)) && plain(
                    content_of(item),
                ),
                Err(e) => e == ProjectError::Serialize && encode_task(self@) is None,
            },
    {
        if self.index as u64 > i64::MAX as u64 {
            return Err(ProjectError::Serialize);
        }
        let mut table = empty_table();
        table.insert("desc".to_owned(), string_value(self.desc.clone()));
        table.insert("index".to_owned(), integer_value(self.index as i64));
        table.insert("completed".to_owned(), boolean_value(self.completed));
        let item = table_value(table);
        proof {
            keys_differ();
            task_form_is_plain(self@);
        }
        Ok(item)
    }
}

impl ProjectData {
    /// Reads the name and the tasks of a project from its TOML document.
    pub fn from_toml(document: &toml::Value) -> (data: Result<ProjectData, ProjectError>)
        ensures
            match data {
                Ok(data) => decode_project(content_of(*document)) == Some(data@),
                Err(e) => e == ProjectError::Parse && decode_project(content_of(*document))
                    is None,
            },
    {
        let name = match get(document, "name") {
            Some(value) => match value.as_str() {
                Some(name) => name,
                None => return Err(ProjectError::Parse),
            },
            None => return Err(ProjectError::Parse),
        };
        let items = match get(document, "tasks") {
            Some(value) => match value.as_array() {
                Some(items) => items,
                None => return Err(ProjectError::Parse),
            },
            None => return Err(ProjectError::Parse),
        };
        let ghost held = contents_of(items@);
        let mut tasks: Vec<Task> = Vec::new();
        let mut i: usize = 0;
        while i < items.len()
            invariant
                i <= items.len(),
                held == contents_of(items@),
                content_of(*document) matches Content::Table(entries) && {
                    &&& entries.contains_key("name"@)
                    &&& entries.contains_key("tasks"@)
                    &&& entries["name"@] == Content::String(name@)
                    &&& entries["tasks"@] == Content::Array(held)
                },
                tasks.len() == i,
                forall|j: int| 0 <= j < i ==> decode_task(#[trigger] held[j]) == Some(tasks[j]@),
            decreases items.len() - i,
        {
            match Task::from_toml(&items[i]) {
                Ok(task) => tasks.push(task),
                Err(e) => {
                    assert(decode_task(held[i as int]) is None);
                    return Err(e);
                },
            }
            i += 1;
        }
        let data = ProjectData { name: name.to_owned(), tasks };
        assert(decode_tasks(held) == Some(data@.tasks));
        Ok(data)
    }

    /// The TOML document that is written for the project.
    pub fn to_toml(&self) -> (document: Result<toml::Value, ProjectError>)
        ensures
            match document {
                Ok(document) => encode_project(self@) == Some(content_of(document)) && plain(
                    content_of(document),
                ),
                Err(e) => e == ProjectError::Serialize && encode_project(self@) is None,
            },
    {
        let mut items: Vec<toml::Value> = Vec::new();
        let mut i: usize = 0;
        while i < self.tasks.len()
            invariant
                i <= self.tasks.len(),
                items.len() == i,
                forall|j: int|
                    0 <= j < i ==> encode_task(#[trigger] self@.tasks[j]) == Some(
                        content_of(items[j]),
                    ),
            decreases self.tasks.len() - i,
        {
            match self.tasks[i].to_toml() {
                Ok(item) => items.push(item),
                Err(e) => {
                    assert(encode_task(self@.tasks[i as int]) is None);
                    return Err(e);
                },
            }
            i += 1;
        }
        assert(encode_tasks(self@.tasks) == Some(contents_of(items@)));
        let mut table = empty_table();
        table.insert("name".to_owned(), string_value(self.name.clone()));
        table.insert("tasks".to_owned(), array_value(items));
        let document = table_value(table);
        proof {
            keys_differ();
            project_form_is_plain(self@);
        }
        Ok(document)
    }
}

impl Project {
    /// The project that the text of the file at `project_file` stands for.
    /// Indices are taken as they are written: a file in which an index
    /// occurs twice is read as it stands.
    pub fn load(project_file: PathBuf, steps: usize, content: &str) -> (project: Result<
        Project,
        ProjectError,
    >)
        ensures
            match project {
                Ok(project) => {
                    &&& project.path == project_file
                    &&& project.steps == steps
                    &&& loaded(content@) == Some(project.data@)
                },
                Err(e) => e == ProjectError::Parse && loaded(content@) is None,
            },
    {
        let document = match parse(content) {
            Ok(document) => document,
            Err(_) => return Err(ProjectError::Parse),
        };
        let data = ProjectData::from_toml(&document)?;
        Ok(Project { path: project_file, steps, data })
    }

    /// The text to write to the project file, in place of what it held.
    /// The name and the tasks are written, the path and the steps are not.
    pub fn save(&self) -> (text: Result<String, ProjectError>)
        ensures
            match text {
                Ok(text) => saved(self.data@) == Some(text@),
                Err(e) => e == ProjectError::Serialize && saved(self.data@) is None,
            },
    {
        let document = self.data.to_toml()?;
        match render(&document) {
            Ok(text) => Ok(text),
            Err(_) => Err(ProjectError::Serialize),
        }
    }
}

/// What is written for a task holds strings, integers and booleans alone.
proof fn task_form_is_plain(task: TaskView)
    requires
        encode_task(task) is Some,
    ensures
        plain(encode_task(task).unwrap()),
{
    keys_differ();
    let entries = encode_task(task).unwrap()->Table_0;
    assert forall|key: Seq<char>| #[trigger] entries.contains_key(key) implies plain(
        entries[key],
    ) by {
        assert(key == "desc"@ || key == "index"@ || key == "completed"@);
    }
}

/// What is written for a project holds strings, integers, booleans, arrays
/// and tables alone.
proof fn project_form_is_plain(data: ProjectDataView)
    requires
        encode_project(data) is Some,
    ensures
        plain(encode_project(data).unwrap()),
{
    keys_differ();
    let entries = encode_project(data).unwrap()->Table_0;
    let items = encode_tasks(data.tasks).unwrap();
    assert forall|i: int| 0 <= i < items.len() implies plain(#[trigger] items[i]) by {
        task_form_is_plain(data.tasks[i]);
    }
    assert(plain(Content::Array(items)));
    assert forall|key: Seq<char>| #[trigger] entries.contains_key(key) implies plain(
        entries[key],
    ) by {
        assert(key == "name"@ || key == "tasks"@);
    }
}

/// Reading what was written gives the project back: where a project has a
/// written form, that document stands for the same name and the same tasks,
/// in the same order.
pub proof fn written_form_reads_back(data: ProjectDataView)
    requires
        encode_project(data) is Some,
    ensures
        decode_project(encode_project(data).unwrap()) == Some(data),
{
    keys_differ();
    let items = encode_tasks(data.tasks).unwrap();
    assert forall|i: int| 0 <= i < items.len() implies decode_task(#[trigger] items[i]) == Some(
        data.tasks[i],
    ) by {
        assert(encode_task(data.tasks[i]) is Some);
    }
    assert(decode_tasks(items).unwrap() == data.tasks);
}

} // verus!
