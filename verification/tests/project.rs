use std::path::PathBuf;

use tutel::error::ProjectError;
use tutel::project::Project;
use tutel::task::Task;

fn indices(project: &Project) -> Vec<usize> {
    project.data.tasks.iter().map(|t| t.index).collect()
}

#[test]
fn remove_task() {
    let mut project = Project::new(PathBuf::from("/invalid/path"), "testproject");

    project.add("iam", false);
    project.add("root", true);

    project.remove(0);

    assert!(project.get_task_mut(0).is_err());
    assert_eq!(project.next_index(), 2);
}

#[test]
fn remove_all_completed() {
    let mut project = Project::new(PathBuf::from("/invalid/path"), "testproject");

    project.add("never", true);
    project.add("gonna", false);
    project.add("give", false);
    project.add("you", true);
    project.add("up", false);

    project.remove_completed();

    assert!(project.get_task_mut(0).is_err());
    assert!(project.get_task_mut(3).is_err());
}

#[test]
fn next_index() {
    let mut project = Project::new(PathBuf::new(), &String::from("dummy"));
    project.data.tasks.push(Task::new("a", false, 5));
    project.data.tasks.push(Task::new("a", false, 16));

    assert_eq!(project.next_index(), 17);
}

#[test]
fn wrap_index() {
    let mut project = Project::new(PathBuf::new(), &String::from("dummy"));
    project.data.tasks.push(Task::new("a", false, 999));
    project.data.tasks.push(Task::new("a", false, 3));

    assert_eq!(project.next_index(), 0);
}

#[test]
fn new_project_is_empty() {
    let project = Project::new(PathBuf::from("/some/where/.tutel.toml"), "fresh");
    assert_eq!(project.path, PathBuf::from("/some/where/.tutel.toml"));
    assert_eq!(project.steps, 0);
    assert_eq!(project.data.name, "fresh");
    assert!(project.data.tasks.is_empty());
}

#[test]
fn task_new_keeps_its_arguments() {
    let task = Task::new("write", true, 42);
    assert_eq!(task.desc, "write");
    assert!(task.completed);
    assert_eq!(task.index, 42);
}

#[test]
fn next_index_of_empty_project_is_zero() {
    let project = Project::new(PathBuf::new(), "dummy");
    assert_eq!(project.next_index(), 0);
}

#[test]
fn next_index_does_not_fill_gaps() {
    let mut project = Project::new(PathBuf::new(), "dummy");
    project.data.tasks.push(Task::new("a", false, 0));
    project.data.tasks.push(Task::new("b", false, 2));
    assert_eq!(project.next_index(), 3);
}

#[test]
fn next_index_around_the_limit() {
    let mut project = Project::new(PathBuf::new(), "dummy");
    project.data.tasks.push(Task::new("a", false, 997));
    assert_eq!(project.next_index(), 998);
    project.data.tasks[0].index = 998;
    assert_eq!(project.next_index(), 999);
    project.data.tasks[0].index = 999;
    assert_eq!(project.next_index(), 0);
    project.data.tasks[0].index = 1000;
    assert_eq!(project.next_index(), 0);
    project.data.tasks[0].index = usize::MAX;
    assert_eq!(project.next_index(), 0);
}

#[test]
fn next_index_follows_the_highest_wherever_it_stands() {
    let mut project = Project::new(PathBuf::new(), "dummy");
    project.data.tasks.push(Task::new("a", false, 16));
    project.data.tasks.push(Task::new("b", false, 5));
    project.data.tasks.push(Task::new("c", false, 0));
    assert_eq!(project.next_index(), 17);
}

#[test]
fn add_appends_with_the_next_index() {
    let mut project = Project::new(PathBuf::from("/invalid/path"), "testproject");
    project.add("one", false);
    project.add("two", true);
    project.add("three", false);
    assert_eq!(
        project.data.tasks,
        vec![
            Task::new("one", false, 0),
            Task::new("two", true, 1),
            Task::new("three", false, 2),
        ]
    );
    assert_eq!(project.path, PathBuf::from("/invalid/path"));
    assert_eq!(project.data.name, "testproject");
}

#[test]
fn add_after_the_limit_starts_again_at_zero() {
    let mut project = Project::new(PathBuf::new(), "dummy");
    project.data.tasks.push(Task::new("last", false, 999));
    project.add("wrapped", false);
    assert_eq!(indices(&project), vec![999, 0]);
    // the highest index is still 999, so the next addition meets index 0 again
    project.add("again", false);
    assert_eq!(indices(&project), vec![999, 0, 0]);
}

#[test]
fn remove_leaves_the_other_tasks_in_order() {
    let mut project = Project::new(PathBuf::from("/invalid/path"), "testproject");
    project.add("iam", false);
    project.add("root", true);

    project.remove(0);

    assert_eq!(project.data.tasks, vec![Task::new("root", true, 1)]);
    assert_eq!(
        project.get_task_mut(0).err(),
        Some(ProjectError::IndexNotFound { index: 0 })
    );
    assert_eq!(project.next_index(), 2);
}

#[test]
fn remove_of_a_missing_index_changes_nothing() {
    let mut project = Project::new(PathBuf::from("/invalid/path"), "testproject");
    project.add("iam", false);
    project.add("root", true);

    project.remove(7);
    project.remove(7);

    assert_eq!(
        project.data.tasks,
        vec![Task::new("iam", false, 0), Task::new("root", true, 1)]
    );
    assert_eq!(project.data.name, "testproject");
    assert_eq!(project.path, PathBuf::from("/invalid/path"));
}

#[test]
fn remove_takes_every_task_with_the_index() {
    let mut project = Project::new(PathBuf::new(), "dummy");
    project.data.tasks.push(Task::new("a", false, 4));
    project.data.tasks.push(Task::new("b", false, 9));
    project.data.tasks.push(Task::new("c", true, 4));
    project.data.tasks.push(Task::new("d", true, 1));
    project.remove(4);
    assert_eq!(
        project.data.tasks,
        vec![Task::new("b", false, 9), Task::new("d", true, 1)]
    );
}

#[test]
fn remove_all_clears_the_list() {
    let mut project = Project::new(PathBuf::from("/invalid/path"), "testproject");
    project.add("iam", false);
    project.add("root", true);
    project.remove_all();
    assert!(project.data.tasks.is_empty());
    assert_eq!(project.data.name, "testproject");
    assert_eq!(project.next_index(), 0);
    project.remove_all();
    assert!(project.data.tasks.is_empty());
}

#[test]
fn remove_completed_keeps_the_open_tasks_in_order() {
    let mut project = Project::new(PathBuf::from("/invalid/path"), "testproject");
    project.add("never", true);
    project.add("gonna", false);
    project.add("give", false);
    project.add("you", true);
    project.add("up", false);

    project.remove_completed();

    assert_eq!(
        project.data.tasks,
        vec![
            Task::new("gonna", false, 1),
            Task::new("give", false, 2),
            Task::new("up", false, 4),
        ]
    );
}

#[test]
fn remove_completed_on_edge_lists() {
    let mut project = Project::new(PathBuf::new(), "dummy");
    project.remove_completed();
    assert!(project.data.tasks.is_empty());
    project.add("a", true);
    project.add("b", true);
    project.remove_completed();
    assert!(project.data.tasks.is_empty());
    project.add("c", false);
    project.remove_completed();
    assert_eq!(project.data.tasks, vec![Task::new("c", false, 0)]);
}

#[test]
fn mark_completion_sets_the_flag_of_one_task() {
    let mut project = Project::new(PathBuf::from("/invalid/path"), "testproject");
    project.add("iam", false);
    project.add("root", true);

    assert_eq!(project.mark_completion(0, true), Ok(()));
    assert_eq!(project.mark_completion(1, false), Ok(()));

    assert_eq!(
        project.data.tasks,
        vec![Task::new("iam", true, 0), Task::new("root", false, 1)]
    );
}

#[test]
fn mark_completion_of_a_missing_index_fails() {
    let mut project = Project::new(PathBuf::from("/invalid/path"), "testproject");
    project.add("iam", false);

    assert_eq!(
        project.mark_completion(3, true),
        Err(ProjectError::IndexNotFound { index: 3 })
    );
    assert_eq!(project.data.tasks, vec![Task::new("iam", false, 0)]);
}

#[test]
fn mark_completion_takes_the_first_of_two_equal_indices() {
    let mut project = Project::new(PathBuf::new(), "dummy");
    project.data.tasks.push(Task::new("a", false, 2));
    project.data.tasks.push(Task::new("b", false, 2));
    assert_eq!(project.mark_completion(2, true), Ok(()));
    assert_eq!(
        project.data.tasks,
        vec![Task::new("a", true, 2), Task::new("b", false, 2)]
    );
}

#[test]
fn mark_completion_all_sets_every_flag() {
    let mut project = Project::new(PathBuf::from("/invalid/path"), "testproject");
    project.mark_completion_all(true);
    assert!(project.data.tasks.is_empty());

    project.add("never", true);
    project.add("gonna", false);
    project.add("give", false);
    project.mark_completion_all(true);
    assert_eq!(
        project.data.tasks,
        vec![
            Task::new("never", true, 0),
            Task::new("gonna", true, 1),
            Task::new("give", true, 2),
        ]
    );
    project.mark_completion_all(false);
    assert!(project.data.tasks.iter().all(|t| !t.completed));
    assert_eq!(indices(&project), vec![0, 1, 2]);
}

#[test]
fn get_task_mut_hands_out_the_task_itself() {
    let mut project = Project::new(PathBuf::from("/invalid/path"), "testproject");
    project.add("iam", false);
    project.add("root", true);

    {
        let task = project.get_task_mut(1).expect("index 1 is in use");
        assert_eq!(*task, Task::new("root", true, 1));
        task.desc = String::from("toor");
        task.completed = false;
    }
    assert_eq!(
        project.data.tasks,
        vec![Task::new("iam", false, 0), Task::new("toor", false, 1)]
    );
    assert_eq!(
        project.get_task_mut(2).err(),
        Some(ProjectError::IndexNotFound { index: 2 })
    );
}

#[test]
fn indices_stay_unique_over_additions_and_removals() {
    let mut project = Project::new(PathBuf::new(), "dummy");
    for round in 0..40 {
        project.add("task", round % 3 == 0);
        project.add("task", false);
        project.remove(round);
        if round % 7 == 0 {
            project.remove_completed();
        }
        let mut seen = indices(&project);
        seen.sort();
        let before = seen.len();
        seen.dedup();
        assert_eq!(seen.len(), before);
    }
}

#[test]
fn the_first_thousand_additions_get_different_indices() {
    let mut project = Project::new(PathBuf::new(), "dummy");
    for _ in 0..1000 {
        project.add("task", false);
    }
    assert_eq!(indices(&project), (0..1000).collect::<Vec<usize>>());
    // one more addition wraps around onto index 0, which is still in use
    project.add("task", false);
    assert_eq!(project.data.tasks[1000].index, 0);
}
