//! A project: a named, ordered list of tasks together with the place of its
//! backing file.

use crate::error::ProjectError;
use crate::laws::{addition_keeps_uniqueness, marking_keeps_uniqueness, removal_keeps_uniqueness,
    removed_index_is_gone};
use crate::task::{has_index, highest_index, next_index_of, next_index_taken, position_of,
    position_of_is_first, task_views, unique_indices, Task, TaskView, INDEX_LIMIT};
use std::path::PathBuf;
use vstd::prelude::*;

verus! {

/// What the persisted part of a project is, as plain mathematics.
pub struct ProjectDataView {
    pub name: Seq<char>,
    pub tasks: Seq<TaskView>,
}

/// The part of a project that is saved and loaded.
#[derive(Debug)]
pub struct ProjectData {
    pub name: String,
    pub tasks: Vec<Task>,
}

impl View for ProjectData {
    type V = ProjectDataView;

    open spec fn view(&self) -> ProjectDataView {
        ProjectDataView { name: self.name@, tasks: task_views(self.tasks@) }
    }
}

/// A project holds tasks, the location of the file they belong to, and the
/// number of directory steps that were taken upwards to reach that file.
#[derive(Debug)]
pub struct Project {
    pub path: PathBuf,
    pub steps: usize,
    pub data: ProjectData,
}

/// The list after a new task with the next index has been appended.
pub open spec fn with_added(tasks: Seq<TaskView>, desc: Seq<char>, completed: bool) -> Seq<
    TaskView,
> {
    tasks.push(TaskView { desc, index: next_index_of(tasks) as usize, completed })
}

/// The tasks of `tasks` that do not carry `index`, in their order.
pub open spec fn without_index(tasks: Seq<TaskView>, index: usize) -> Seq<TaskView> {
    tasks.filter(|t: TaskView| t.index != index)
}

/// The tasks of `tasks` that are not completed, in their order.
pub open spec fn without_completed(tasks: Seq<TaskView>) -> Seq<TaskView> {
    tasks.filter(|t: TaskView| !t.completed)
}

/// The tasks of `tasks`, each with its completion flag set to `completed`.
pub open spec fn with_completion_all(tasks: Seq<TaskView>, completed: bool) -> Seq<TaskView> {
    Seq::new(tasks.len(), |i: int| TaskView { completed, ..tasks[i] })
}

/// Which tasks a removal takes away.
enum Removal {
    WithIndex(usize),
    Completed,
}

impl Removal {
    spec fn takes(self, task: TaskView) -> bool {
        match self {
            Removal::WithIndex(index) => task.index == index,
            Removal::Completed => task.completed,
        }
    }

    fn takes_task(&self, task: &Task) -> (taken: bool)
        ensures
            taken == self.takes(task@),
    {
        match self {
            Removal::WithIndex(index) => task.index == *index,
            Removal::Completed => task.completed,
        }
    }
}

/// Takes away the tasks that the removal names and keeps the others in
/// their order.
fn retain(tasks: &mut Vec<Task>, removal: Removal)
    ensures
        task_views(final(tasks)@) == task_views(old(tasks)@).filter(
            |t: TaskView| !removal.takes(t),
        ),
{
    let ghost before = task_views(tasks@);
    let ghost keep = |t: TaskView| !removal.takes(t);
    let ghost seen: int = 0;
    let mut i: usize = 0;
    while i < tasks.len()
        invariant
            before == task_views(old(tasks)@),
            keep == |t: TaskView| !removal.takes(t),
            0 <= seen <= before.len(),
            i <= tasks.len(),
            tasks.len() - i == before.len() - seen,
            task_views(tasks@).take(i as int) == before.take(seen).filter(keep),
            task_views(tasks@).skip(i as int) == before.skip(seen),
        decreases tasks.len() - i,
    {
        let ghost now = task_views(tasks@);
        proof {
            assert(now[i as int] == now.skip(i as int)[0]);
            assert(before.take(seen + 1) == before.take(seen).push(before[seen]));
            before.take(seen).lemma_filter_push(before[seen], keep);
        }
        if removal.takes_task(&tasks[i]) {
            tasks.remove(i);
            proof {
                assert(task_views(tasks@).take(i as int) == now.take(i as int));
                assert(task_views(tasks@).skip(i as int) == now.skip(i as int).skip(1));
                assert(before.skip(seen).skip(1) == before.skip(seen + 1));
            }
        } else {
            proof {
                assert(now.take(i + 1) == now.take(i as int).push(now[i as int]));
                assert(now.skip(i as int).skip(1) == now.skip(i + 1));
                assert(before.skip(seen).skip(1) == before.skip(seen + 1));
            }
            i += 1;
        }
        proof {
            seen = seen + 1;
        }
    }
    proof {
        assert(task_views(tasks@).take(i as int) == task_views(tasks@));
        assert(before.take(seen) == before);
    }
}

impl Project {
    /// A project with no tasks, found zero steps up, whose backing file is
    /// `project_file`. Nothing is written.
    pub fn new(project_file: PathBuf, name: &str) -> (project: Project)
        ensures
            project.path == project_file,
            project.steps == 0,
            project.data@.name == name@,
            project.data@.tasks == Seq::<TaskView>::empty(),
    {
        Project {
            path: project_file,
            steps: 0,
            data: ProjectData { name: name.to_owned(), tasks: Vec::new() },
        }
    }

    /// Appends a new task that carries the next index.
    pub fn add(&mut self, name: &str, completed: bool)
        ensures
            final(self).path == old(self).path,
            final(self).steps == old(self).steps,
            final(self).data@.name == old(self).data@.name,
            final(self).data@.tasks == with_added(old(self).data@.tasks, name@, completed),
            unique_indices(old(self).data@.tasks) && !next_index_taken(old(self).data@.tasks)
                ==> unique_indices(final(self).data@.tasks),
    {
        proof {
            if unique_indices(self.data@.tasks) && !next_index_taken(self.data@.tasks) {
                addition_keeps_uniqueness(self.data@.tasks, name@, completed);
            }
        }
        let index = self.next_index();
        self.data.tasks.push(Task::new(name, completed, index));
        assert(self.data@.tasks == with_added(old(self).data@.tasks, name@, completed));
    }

    /// Removes every task that carries `index`; the others keep their order.
    /// Where no task carries it, nothing changes.
    pub fn remove(&mut self, index: usize)
        ensures
            final(self).path == old(self).path,
            final(self).steps == old(self).steps,
            final(self).data@.name == old(self).data@.name,
            final(self).data@.tasks == without_index(old(self).data@.tasks, index),
            !has_index(final(self).data@.tasks, index),
            !has_index(old(self).data@.tasks, index) ==> final(self).data@.tasks == old(
                self,
            ).data@.tasks,
            unique_indices(old(self).data@.tasks) ==> unique_indices(final(self).data@.tasks),
    {
        let ghost before = self.data@.tasks;
        retain(&mut self.data.tasks, Removal::WithIndex(index));
        proof {
            lemma_filter_agrees(
                before,
                |t: TaskView| !Removal::WithIndex(index).takes(t),
                |t: TaskView| t.index != index,
            );
            removed_index_is_gone(before, index);
            if !has_index(before, index) {
                lemma_filter_keeps_all(before, |t: TaskView| t.index != index);
            }
            if unique_indices(before) {
                removal_keeps_uniqueness(before, index);
            }
        }
    }

    /// Removes every task.
    pub fn remove_all(&mut self)
        ensures
            final(self).path == old(self).path,
            final(self).steps == old(self).steps,
            final(self).data@.name == old(self).data@.name,
            final(self).data@.tasks == Seq::<TaskView>::empty(),
    {
        self.data.tasks.clear();
    }

    /// Removes every completed task; the others keep their order.
    pub fn remove_completed(&mut self)
        ensures
            final(self).path == old(self).path,
            final(self).steps == old(self).steps,
            final(self).data@.name == old(self).data@.name,
            final(self).data@.tasks == without_completed(old(self).data@.tasks),
            unique_indices(old(self).data@.tasks) ==> unique_indices(final(self).data@.tasks),
    {
        let ghost before = self.data@.tasks;
        retain(&mut self.data.tasks, Removal::Completed);
        proof {
            lemma_filter_agrees(
                before,
                |t: TaskView| !Removal::Completed.takes(t),
                |t: TaskView| !t.completed,
            );
            if unique_indices(before) {
                removal_keeps_uniqueness(before, 0);
            }
        }
    }

    /// Sets the completion flag of every task.
    pub fn mark_completion_all(&mut self, completed: bool)
        ensures
            final(self).path == old(self).path,
            final(self).steps == old(self).steps,
            final(self).data@.name == old(self).data@.name,
            final(self).data@.tasks == with_completion_all(old(self).data@.tasks, completed),
            unique_indices(old(self).data@.tasks) ==> unique_indices(final(self).data@.tasks),
    {
        proof {
            if unique_indices(self.data@.tasks) {
                marking_keeps_uniqueness(self.data@.tasks, 0, completed);
            }
        }
        let mut i: usize = 0;
        while i < self.data.tasks.len()
            invariant
                self.path == old(self).path,
                self.steps == old(self).steps,
                self.data.name == old(self).data.name,
                i <= self.data.tasks.len(),
                self.data.tasks.len() == old(self).data.tasks.len(),
                forall|j: int|
                    0 <= j < i ==> (#[trigger] self.data.tasks[j])@ == (TaskView {
                        completed,
                        ..old(self).data.tasks[j]@
                    }),
                forall|j: int|
                    i <= j < self.data.tasks.len() ==> (#[trigger] self.data.tasks[j])
                        == old(self).data.tasks[j],
            decreases self.data.tasks.len() - i,
        {
            self.data.tasks[i].completed = completed;
            i += 1;
        }
        assert(self.data@.tasks == with_completion_all(old(self).data@.tasks, completed));
    }

    /// The first task that carries `index`, to be changed in place.
    pub fn get_task_mut(&mut self, index: usize) -> (found: Result<&mut Task, ProjectError>)
        ensures
            match found {
                Ok(task) => {
                    let at = position_of(old(self).data@.tasks, index);
                    &&& has_index(old(self).data@.tasks, index)
                    &&& *task == old(self).data.tasks[at]
                    &&& final(self).data.tasks@ == old(self).data.tasks@.update(at, *final(task))
                    &&& final(self).data.name == old(self).data.name
                    &&& final(self).path == old(self).path
                    &&& final(self).steps == old(self).steps
                },
                Err(e) => {
                    &&& e == ProjectError::IndexNotFound { index }
                    &&& !has_index(old(self).data@.tasks, index)
                    &&& *final(self) == *old(self)
                },
            },
    {
        proof {
            position_of_is_first(self.data@.tasks, index);
        }
        let mut i: usize = 0;
        while i < self.data.tasks.len()
            invariant
                *self == *old(self),
                i <= self.data.tasks.len(),
                i <= position_of(self.data@.tasks, index) <= self.data.tasks.len(),
                has_index(self.data@.tasks, index) <==> position_of(self.data@.tasks, index)
                    < self.data.tasks.len(),
                position_of(self.data@.tasks, index) < self.data.tasks.len()
                    ==> self.data@.tasks[position_of(self.data@.tasks, index)].index == index,
                forall|j: int|
                    0 <= j < position_of(self.data@.tasks, index) ==> (
                    #[trigger] self.data@.tasks[j]).index != index,
            decreases self.data.tasks.len() - i,
        {
            if self.data.tasks[i].index == index {
                assert(self.data@.tasks[i as int].index == index);
                return Ok(&mut self.data.tasks[i]);
            }
            assert(self.data@.tasks[i as int].index != index);
            i += 1;
        }
        Err(ProjectError::IndexNotFound { index })
    }

    /// Sets the completion flag of the first task that carries `index`.
    pub fn mark_completion(&mut self, index: usize, completed: bool) -> (done: Result<
        (),
        ProjectError,
    >)
        ensures
            final(self).path == old(self).path,
            final(self).steps == old(self).steps,
            final(self).data@.name == old(self).data@.name,
            unique_indices(old(self).data@.tasks) ==> unique_indices(final(self).data@.tasks),
            match done {
                Ok(()) => {
                    let at = position_of(old(self).data@.tasks, index);
                    &&& has_index(old(self).data@.tasks, index)
                    &&& final(self).data@.tasks == old(self).data@.tasks.update(
                        at,
                        TaskView { completed, ..old(self).data@.tasks[at] },
                    )
                },
                Err(e) => {
                    &&& e == ProjectError::IndexNotFound { index }
                    &&& !has_index(old(self).data@.tasks, index)
                    &&& final(self).data@.tasks == old(self).data@.tasks
                },
            },
    {
        proof {
            position_of_is_first(self.data@.tasks, index);
            if unique_indices(self.data@.tasks) {
                marking_keeps_uniqueness(self.data@.tasks, index, completed);
            }
        }
        let task = self.get_task_mut(index)?;
        task.completed = completed;
        proof {
            let at = position_of(old(self).data@.tasks, index);
            assert(self.data@.tasks == old(self).data@.tasks.update(
                at,
                TaskView { completed, ..old(self).data@.tasks[at] },
            ));
        }
        Ok(())
    }

    /// The index for the next new task, by the policy of `next_index_of`.
    pub fn next_index(&self) -> (next: usize)
        ensures
            next == next_index_of(self.data@.tasks),
    {
        let ghost all = self.data@.tasks;
        let mut highest: usize = 0;
        let mut i: usize = 0;
        while i < self.data.tasks.len()
            invariant
                i <= self.data.tasks.len(),
                all == self.data@.tasks,
                highest == highest_index(all.take(i as int)),
            decreases self.data.tasks.len() - i,
        {
            proof {
                assert(all.take(i + 1).drop_last() == all.take(i as int));
                assert(all.take(i + 1).last() == self.data.tasks[i as int]@);
            }
            if self.data.tasks[i].index > highest {
                highest = self.data.tasks[i].index;
            }
            i += 1;
        }
        proof {
            assert(all.take(i as int) == all);
        }
        if self.data.tasks.is_empty() || highest >= INDEX_LIMIT {
            0
        } else {
            highest + 1
        }
    }
}

/// Two predicates that agree on every value keep the same elements.
proof fn lemma_filter_agrees<A>(s: Seq<A>, p: spec_fn(A) -> bool, q: spec_fn(A) -> bool)
    requires
        forall|a: A| #[trigger] p(a) == q(a),
    ensures
        s.filter(p) == s.filter(q),
    decreases s.len(),
{
    reveal(Seq::filter);
    if s.len() > 0 {
        lemma_filter_agrees(s.drop_last(), p, q);
    }
}

/// A filter whose predicate holds of every element changes nothing.
proof fn lemma_filter_keeps_all<A>(s: Seq<A>, keep: spec_fn(A) -> bool)
    requires
        forall|i: int| 0 <= i < s.len() ==> keep(#[trigger] s[i]),
    ensures
        s.filter(keep) == s,
    decreases s.len(),
{
    reveal(Seq::filter);
    if s.len() > 0 {
        assert forall|i: int| 0 <= i < s.drop_last().len() implies keep(
            #[trigger] s.drop_last()[i],
        ) by {
            assert(s.drop_last()[i] == s[i]);
        }
        lemma_filter_keeps_all(s.drop_last(), keep);
        assert(s.drop_last().push(s.last()) == s);
    }
}

} // verus!
