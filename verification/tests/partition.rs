use vec_parallel::partition::{slice_end, slice_start};
use vec_parallel::Strategy;

fn ranges(len: usize, tasks: usize) -> Vec<(usize, usize)> {
    (0..tasks)
        .map(|k| (slice_start(len, tasks, k), slice_end(len, tasks, k)))
        .collect()
}

#[test]
fn slices_of_an_even_division() {
    assert_eq!(ranges(100, 4), vec![(0, 25), (25, 50), (50, 75), (75, 100)]);
}

#[test]
fn last_slice_gets_the_remainder() {
    assert_eq!(ranges(13, 3), vec![(0, 4), (4, 8), (8, 13)]);
    assert_eq!(ranges(103, 3), vec![(0, 34), (34, 68), (68, 103)]);
    assert_eq!(ranges(7, 4), vec![(0, 1), (1, 2), (2, 3), (3, 7)]);
}

#[test]
fn one_slice_is_everything() {
    assert_eq!(ranges(10, 1), vec![(0, 10)]);
}

#[test]
fn every_index_has_exactly_one_slice() {
    for len in 1..40 {
        for tasks in 1..=len {
            for i in 0..len {
                let owners = ranges(len, tasks)
                    .iter()
                    .filter(|(start, end)| *start <= i && i < *end)
                    .count();
                assert_eq!(owners, 1);
            }
        }
    }
}

#[test]
fn no_slice_is_empty() {
    for len in 1..40 {
        for tasks in 1..=len {
            assert!(ranges(len, tasks).iter().all(|(start, end)| start < end));
        }
    }
}

#[test]
fn slices_of_a_huge_vector() {
    let tasks = 3;
    assert_eq!(slice_end(usize::MAX, tasks, 2), usize::MAX);
    assert_eq!(slice_start(usize::MAX, tasks, 2), usize::MAX / 3 * 2);
}

#[test]
fn task_counts() {
    assert_eq!(Strategy::One.task_count(10, 4), 1);
    assert_eq!(Strategy::Tasks(2).task_count(10, 4), 2);
    assert_eq!(Strategy::Tasks(10).task_count(10, 4), 10);
    assert_eq!(Strategy::Tasks(20).task_count(10, 4), 10);
    assert_eq!(Strategy::Max.task_count(10, 4), 10);
    assert_eq!(Strategy::TasksPerCore(4).task_count(1000, 4), 16);
    assert_eq!(Strategy::TasksPerCore(4).task_count(10, 4), 10);
}

#[test]
fn too_many_tasks_to_count() {
    assert_eq!(Strategy::TasksPerCore(usize::MAX).task_count(10, 4), 10);
    assert_eq!(Strategy::Tasks(usize::MAX).task_count(10, 4), 10);
}

#[test]
fn accepted_strategies() {
    assert!(Strategy::One.accepts(1));
    assert!(Strategy::Max.accepts(1));
    assert!(Strategy::Tasks(1).accepts(1));
    assert!(Strategy::TasksPerCore(1).accepts(1));
    assert!(Strategy::One.accepts(0));
    assert!(Strategy::Max.accepts(0));
    assert!(!Strategy::Tasks(0).accepts(1));
    assert!(!Strategy::TasksPerCore(0).accepts(1));
    assert!(Strategy::Tasks(4).accepts(0));
    assert!(Strategy::TasksPerCore(1).accepts(0));
}
