//! What holds of the task list across the operations that change it.

use crate::project::{with_added, with_completion_all, without_completed, without_index};
use crate::task::{has_index, highest_index, highest_index_is_greatest, next_index_of,
    next_index_taken, position_of, position_of_is_first, unique_indices, TaskView, INDEX_LIMIT};
use vstd::prelude::*;

verus! {

/// One change to a task list: a task is added, or the tasks with an index
/// are removed.
pub enum Change {
    Add { desc: Seq<char>, completed: bool },
    Remove { index: usize },
}

/// The list after one change.
pub open spec fn apply(tasks: Seq<TaskView>, change: Change) -> Seq<TaskView> {
    match change {
        Change::Add { desc, completed } => with_added(tasks, desc, completed),
        Change::Remove { index } => without_index(tasks, index),
    }
}

/// The list after a run of changes, the first of them applied first.
pub open spec fn apply_all(tasks: Seq<TaskView>, changes: Seq<Change>) -> Seq<TaskView>
    decreases changes.len(),
{
    if changes.len() == 0 {
        tasks
    } else {
        apply(apply_all(tasks, changes.drop_last()), changes.last())
    }
}

/// No addition in the run is made to a list on which the next index is taken.
pub open spec fn no_addition_collides(tasks: Seq<TaskView>, changes: Seq<Change>) -> bool
    decreases changes.len(),
{
    changes.len() == 0 || {
        &&& no_addition_collides(tasks, changes.drop_last())
        &&& changes.last() is Add ==> !next_index_taken(apply_all(tasks, changes.drop_last()))
    }
}

/// The number of additions in a run of changes.
pub open spec fn additions(changes: Seq<Change>) -> nat
    decreases changes.len(),
{
    if changes.len() == 0 {
        0
    } else if changes.last() is Add {
        additions(changes.drop_last()) + 1
    } else {
        additions(changes.drop_last())
    }
}

/// Where a list has no index twice, what a filter keeps of it has none twice.
proof fn filter_keeps_uniqueness(tasks: Seq<TaskView>, keep: spec_fn(TaskView) -> bool)
    requires
        unique_indices(tasks),
    ensures
        unique_indices(tasks.filter(keep)),
    decreases tasks.len(),
{
    reveal(Seq::filter);
    if tasks.len() > 0 {
        let front = tasks.drop_last();
        assert forall|i: int, j: int| 0 <= i < j < front.len() implies (#[trigger] front[i]).index
            != (#[trigger] front[j]).index by {
            assert(front[i] == tasks[i] && front[j] == tasks[j]);
        }
        filter_keeps_uniqueness(front, keep);
        let kept = front.filter(keep);
        if keep(tasks.last()) {
            assert forall|i: int, j: int|
                0 <= i < j < kept.push(tasks.last()).len() implies (#[trigger] kept.push(
                tasks.last(),
            )[i]).index != (#[trigger] kept.push(tasks.last())[j]).index by {
                if j == kept.len() {
                    assert(kept.contains(kept[i]));
                    front.lemma_filter_contains_rev(keep, kept[i]);
                    let k = choose|k: int| 0 <= k < front.len() && front[k] == kept[i];
                    assert(tasks[k] == front[k]);
                    assert(tasks[k].index != tasks[tasks.len() - 1].index);
                }
            }
        }
    }
}

/// A task carries an index in what a filter keeps only if one carried it before.
proof fn filter_adds_no_index(
    tasks: Seq<TaskView>,
    keep: spec_fn(TaskView) -> bool,
    index: usize,
)
    requires
        has_index(tasks.filter(keep), index),
    ensures
        has_index(tasks, index),
{
    let kept = tasks.filter(keep);
    let i = choose|i: int| 0 <= i < kept.len() && (#[trigger] kept[i]).index == index;
    assert(kept.contains(kept[i]));
    tasks.lemma_filter_contains_rev(keep, kept[i]);
    let k = choose|k: int| 0 <= k < tasks.len() && tasks[k] == kept[i];
    assert(tasks[k].index == index);
}

/// After the tasks with an index are removed, no task carries it.
pub proof fn removed_index_is_gone(tasks: Seq<TaskView>, index: usize)
    ensures
        !has_index(without_index(tasks, index), index),
{
    let keep = |t: TaskView| t.index != index;
    if has_index(tasks.filter(keep), index) {
        let kept = tasks.filter(keep);
        let i = choose|i: int| 0 <= i < kept.len() && (#[trigger] kept[i]).index == index;
        tasks.lemma_filter_pred(keep, i);
    }
}

/// Removing by index and removing the completed tasks keep a list without
/// repeated indices free of them.
pub proof fn removal_keeps_uniqueness(tasks: Seq<TaskView>, index: usize)
    requires
        unique_indices(tasks),
    ensures
        unique_indices(without_index(tasks, index)),
        unique_indices(without_completed(tasks)),
{
    filter_keeps_uniqueness(tasks, |t: TaskView| t.index != index);
    filter_keeps_uniqueness(tasks, |t: TaskView| !t.completed);
}

/// Setting completion flags, on one task or on all, changes no index: a
/// list without repeated indices stays free of them.
pub proof fn marking_keeps_uniqueness(tasks: Seq<TaskView>, index: usize, completed: bool)
    requires
        unique_indices(tasks),
    ensures
        unique_indices(with_completion_all(tasks, completed)),
        has_index(tasks, index) ==> unique_indices(
            tasks.update(
                position_of(tasks, index),
                TaskView { completed, ..tasks[position_of(tasks, index)] },
            ),
        ),
{
    position_of_is_first(tasks, index);
    let all = with_completion_all(tasks, completed);
    assert forall|i: int, j: int| 0 <= i < j < all.len() implies (#[trigger] all[i]).index != (
    #[trigger] all[j]).index by {
        assert(tasks[i].index != tasks[j].index);
    }
    if has_index(tasks, index) {
        let at = position_of(tasks, index);
        let one = tasks.update(at, TaskView { completed, ..tasks[at] });
        assert forall|i: int, j: int| 0 <= i < j < one.len() implies (#[trigger] one[i]).index != (
        #[trigger] one[j]).index by {
            assert(tasks[i].index != tasks[j].index);
        }
    }
}

/// While the greatest index is below the limit, the next index is above
/// every index in use, so it is not taken.
pub proof fn next_index_is_free_below_limit(tasks: Seq<TaskView>)
    requires
        highest_index(tasks) < INDEX_LIMIT,
    ensures
        !next_index_taken(tasks),
        tasks.len() > 0 ==> next_index_of(tasks) == highest_index(tasks) + 1,
{
    highest_index_is_greatest(tasks);
    if next_index_taken(tasks) {
        let i = choose|i: int|
            0 <= i < tasks.len() && (#[trigger] tasks[i]).index == next_index_of(tasks) as usize;
        assert(tasks[i].index <= highest_index(tasks));
    }
}

/// An addition to a list without repeated indices gives a list without
/// them, unless the next index is taken.
pub proof fn addition_keeps_uniqueness(tasks: Seq<TaskView>, desc: Seq<char>, completed: bool)
    requires
        unique_indices(tasks),
        !next_index_taken(tasks),
    ensures
        unique_indices(with_added(tasks, desc, completed)),
{
    highest_index_is_greatest(tasks);
    let after = with_added(tasks, desc, completed);
    assert forall|i: int, j: int| 0 <= i < j < after.len() implies (#[trigger] after[i]).index != (
    #[trigger] after[j]).index by {
        if j < tasks.len() {
            assert(tasks[i].index != tasks[j].index);
        } else {
            assert(tasks[i].index != next_index_of(tasks) as usize);
        }
    }
}

/// Uniqueness of indices: after any run of additions and removals on a list
/// in which no index occurs twice, no index occurs twice, as long as no
/// addition is made while the next index is taken.
pub proof fn changes_keep_uniqueness(tasks: Seq<TaskView>, changes: Seq<Change>)
    requires
        unique_indices(tasks),
        no_addition_collides(tasks, changes),
    ensures
        unique_indices(apply_all(tasks, changes)),
    decreases changes.len(),
{
    if changes.len() > 0 {
        changes_keep_uniqueness(tasks, changes.drop_last());
        let before = apply_all(tasks, changes.drop_last());
        match changes.last() {
            Change::Add { desc, completed } => {
                addition_keeps_uniqueness(before, desc, completed);
            },
            Change::Remove { index } => {
                removal_keeps_uniqueness(before, index);
            },
        }
    }
}

/// What a filter keeps has no index above the greatest of the list.
proof fn filter_raises_no_index(tasks: Seq<TaskView>, keep: spec_fn(TaskView) -> bool)
    ensures
        highest_index(tasks.filter(keep)) <= highest_index(tasks),
        tasks.filter(keep).len() > 0 ==> tasks.len() > 0,
{
    let kept = tasks.filter(keep);
    highest_index_is_greatest(tasks);
    highest_index_is_greatest(kept);
    tasks.lemma_filter_len(keep);
    if kept.len() > 0 {
        let i = choose|i: int|
            0 <= i < kept.len() && (#[trigger] kept[i]).index == highest_index(kept);
        filter_adds_no_index(tasks, keep, kept[i].index);
        let k = choose|k: int| 0 <= k < tasks.len() && (#[trigger] tasks[k]).index == kept[i].index;
        assert(tasks[k].index <= highest_index(tasks));
    }
}

/// Starting from the empty list, the first `INDEX_LIMIT + 1` additions of a
/// run, with any removals among them, never meet a taken index: every index
/// in the list stays below the number of additions made so far, and no index
/// occurs twice.
pub proof fn early_additions_never_collide(changes: Seq<Change>)
    requires
        additions(changes) <= INDEX_LIMIT + 1,
    ensures
        no_addition_collides(Seq::empty(), changes),
        unique_indices(apply_all(Seq::empty(), changes)),
        apply_all(Seq::empty(), changes).len() > 0 ==> highest_index(
            apply_all(Seq::empty(), changes),
        ) < additions(changes),
    decreases changes.len(),
{
    if changes.len() > 0 {
        let earlier = changes.drop_last();
        early_additions_never_collide(earlier);
        let before = apply_all(Seq::<TaskView>::empty(), earlier);
        match changes.last() {
            Change::Add { desc, completed } => {
                let after = with_added(before, desc, completed);
                assert(after.drop_last() == before);
                if before.len() > 0 {
                    next_index_is_free_below_limit(before);
                }
                addition_keeps_uniqueness(before, desc, completed);
            },
            Change::Remove { index } => {
                filter_raises_no_index(before, |t: TaskView| t.index != index);
                removal_keeps_uniqueness(before, index);
            },
        }
    }
}

} // verus!
