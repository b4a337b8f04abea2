//! One unit of work, its mathematical view, and the index policy over a list of tasks.

use vstd::prelude::*;

verus! {

/// The highest index after which allocation starts again at 0.
pub const INDEX_LIMIT: usize = 999;

/// What a task is, as plain mathematics.
pub struct TaskView {
    pub desc: Seq<char>,
    pub index: usize,
    pub completed: bool,
}

/// A completable task within a project.
#[derive(Debug, PartialEq, Eq)]
pub struct Task {
    pub desc: String,
    pub index: usize,
    pub completed: bool,
}

impl View for Task {
    type V = TaskView;

    open spec fn view(&self) -> TaskView {
        TaskView { desc: self.desc@, index: self.index, completed: self.completed }
    }
}

impl Task {
    /// A task with the given description, completion flag and index.
    pub fn new(name: &str, completed: bool, index: usize) -> (task: Task)
        ensures
            task@ == (TaskView { desc: name@, index, completed }),
    {
        Task { desc: name.to_owned(), completed, index }
    }
}

/// The views of a list of tasks, in the same order.
pub open spec fn task_views(tasks: Seq<Task>) -> Seq<TaskView> {
    Seq::new(tasks.len(), |i: int| tasks[i]@)
}

/// Some task of the list carries `index`.
pub open spec fn has_index(tasks: Seq<TaskView>, index: usize) -> bool {
    exists|i: int| 0 <= i < tasks.len() && (#[trigger] tasks[i]).index == index
}

/// No two tasks of the list carry the same index.
pub open spec fn unique_indices(tasks: Seq<TaskView>) -> bool {
    forall|i: int, j: int|
        0 <= i < j < tasks.len() ==> (#[trigger] tasks[i]).index != (#[trigger] tasks[j]).index
}

/// The position of the first task that carries `index`, and the length of
/// the list where none does.
pub open spec fn position_of(tasks: Seq<TaskView>, index: usize) -> int
    decreases tasks.len(),
{
    if tasks.len() == 0 {
        0
    } else if tasks[0].index == index {
        0
    } else {
        1 + position_of(tasks.drop_first(), index)
    }
}

/// `position_of` is the least position at which `index` stands: it lies
/// within the list exactly when some task carries `index`, the task there
/// carries it, and no task before it does.
pub proof fn position_of_is_first(tasks: Seq<TaskView>, index: usize)
    ensures
        0 <= position_of(tasks, index) <= tasks.len(),
        has_index(tasks, index) <==> position_of(tasks, index) < tasks.len(),
        position_of(tasks, index) < tasks.len() ==> tasks[position_of(tasks, index)].index
            == index,
        forall|j: int| 0 <= j < position_of(tasks, index) ==> (#[trigger] tasks[j]).index != index,
    decreases tasks.len(),
{
    if tasks.len() > 0 && tasks[0].index != index {
        let rest = tasks.drop_first();
        position_of_is_first(rest, index);
        let at = position_of(tasks, index);
        assert forall|j: int| 0 <= j < at implies (#[trigger] tasks[j]).index != index by {
            if j > 0 {
                assert(rest[j - 1] == tasks[j]);
            }
        }
        if at < tasks.len() {
            assert(rest[at - 1] == tasks[at]);
        }
        if has_index(tasks, index) {
            let i = choose|i: int| 0 <= i < tasks.len() && (#[trigger] tasks[i]).index == index;
            assert(rest[i - 1] == tasks[i]);
        }
    }
}

/// The greatest index in the list, and 0 for the empty list.
pub open spec fn highest_index(tasks: Seq<TaskView>) -> int
    decreases tasks.len(),
{
    if tasks.len() == 0 {
        0
    } else {
        let before = highest_index(tasks.drop_last());
        if tasks.last().index > before {
            tasks.last().index as int
        } else {
            before
        }
    }
}

/// The index that the next new task gets: one above the greatest index in
/// use, 0 for an empty list, and 0 again once the greatest index has reached
/// `INDEX_LIMIT`. Freed indices below the greatest one are not reused.
pub open spec fn next_index_of(tasks: Seq<TaskView>) -> int {
    if tasks.len() == 0 || highest_index(tasks) >= INDEX_LIMIT {
        0
    } else {
        highest_index(tasks) + 1
    }
}

/// The index that an addition to `tasks` would hand out is already in use.
/// This happens only after the indices have wrapped around.
pub open spec fn next_index_taken(tasks: Seq<TaskView>) -> bool {
    has_index(tasks, next_index_of(tasks) as usize)
}

/// `highest_index` is an upper bound of every index in the list, and on a
/// list that is not empty it is the index of one of its tasks.
pub proof fn highest_index_is_greatest(tasks: Seq<TaskView>)
    ensures
        forall|i: int| 0 <= i < tasks.len() ==> (#[trigger] tasks[i]).index <= highest_index(tasks),
        tasks.len() > 0 ==> exists|i: int|
            0 <= i < tasks.len() && (#[trigger] tasks[i]).index == highest_index(tasks),
        0 <= highest_index(tasks) <= usize::MAX,
    decreases tasks.len(),
{
    if tasks.len() > 0 {
        let front = tasks.drop_last();
        highest_index_is_greatest(front);
        assert forall|i: int| 0 <= i < tasks.len() implies (#[trigger] tasks[i]).index
            <= highest_index(tasks) by {
            if i < front.len() {
                assert(front[i] == tasks[i]);
            }
        }
        if tasks.last().index > highest_index(front) {
            assert(tasks[tasks.len() - 1].index == highest_index(tasks));
        } else if front.len() > 0 {
            let i = choose|i: int|
                0 <= i < front.len() && (#[trigger] front[i]).index == highest_index(front);
            assert(tasks[i] == front[i]);
        } else {
            assert(tasks[tasks.len() - 1].index == highest_index(tasks));
        }
    }
}

} // verus!
