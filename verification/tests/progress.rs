use std::task::Poll;
use vec_parallel::progress::{join, Progress};

/// Delivers a slice, and tells what that gave.
fn deliver<T>(progress: &mut Progress<T>, k: usize, slice: Vec<T>) -> Result<bool, Vec<T>> {
    let (next, outcome) = std::mem::replace(progress, Progress::new(0)).deliver(k, slice);
    *progress = next;
    outcome
}

/// Asks for the slots.
fn poll<T>(progress: &mut Progress<T>) -> Poll<Vec<Option<Vec<T>>>> {
    let (next, outcome) = std::mem::replace(progress, Progress::new(0)).poll();
    *progress = next;
    outcome
}

#[test]
fn slices_come_out_in_order() {
    let mut progress = Progress::new(3);
    assert_eq!(progress.outstanding_tasks(), 3);
    assert_eq!(deliver(&mut progress, 2, vec![4, 5]), Ok(false));
    assert_eq!(deliver(&mut progress, 0, vec![0, 1]), Ok(false));
    assert_eq!(progress.outstanding_tasks(), 1);
    assert_eq!(deliver(&mut progress, 1, vec![2, 3]), Ok(true));
    assert_eq!(progress.outstanding_tasks(), 0);
    assert_eq!(
        poll(&mut progress),
        Poll::Ready(vec![Some(vec![0, 1]), Some(vec![2, 3]), Some(vec![4, 5])])
    );
}

#[test]
fn slices_are_joined_in_order() {
    let slots = vec![Some(vec![0, 1]), Some(vec![]), Some(vec![2, 3]), Some(vec![4])];
    assert_eq!(join(slots, 5), vec![0, 1, 2, 3, 4]);
    assert_eq!(join(Vec::<Option<Vec<u8>>>::new(), 0), Vec::<u8>::new());
}

#[test]
fn vector_is_not_there_before_the_last_slice() {
    let mut progress = Progress::new(2);
    assert_eq!(poll(&mut progress), Poll::Pending);
    assert_eq!(deliver(&mut progress, 1, vec![20]), Ok(false));
    assert_eq!(poll(&mut progress), Poll::Pending);
    assert_eq!(deliver(&mut progress, 0, vec![10]), Ok(true));
    assert_eq!(
        poll(&mut progress),
        Poll::Ready(vec![Some(vec![10]), Some(vec![20])])
    );
}

#[test]
fn vector_is_handed_out_once() {
    let mut progress = Progress::new(1);
    assert_eq!(deliver(&mut progress, 0, vec![7]), Ok(true));
    assert!(progress.is_live());
    assert_eq!(poll(&mut progress), Poll::Ready(vec![Some(vec![7])]));
    assert!(!progress.is_live());
    assert_eq!(progress.outstanding_tasks(), 0);
    assert_eq!(poll(&mut progress), Poll::Pending);
}

#[test]
fn slices_that_are_not_awaited_come_back() {
    let mut progress = Progress::new(2);
    assert_eq!(deliver(&mut progress, 2, vec![1]), Err(vec![1]));
    assert_eq!(deliver(&mut progress, 0, vec![2]), Ok(false));
    assert_eq!(deliver(&mut progress, 0, vec![3]), Err(vec![3]));
    assert_eq!(progress.outstanding_tasks(), 1);
    assert_eq!(deliver(&mut progress, 1, vec![4]), Ok(true));
    assert_eq!(
        poll(&mut progress),
        Poll::Ready(vec![Some(vec![2]), Some(vec![4])])
    );
}

#[test]
fn released_progress_takes_nothing() {
    let mut progress = Progress::new(2);
    assert_eq!(deliver(&mut progress, 1, vec![5]), Ok(false));
    let (mut progress, slots) = progress.release();
    assert_eq!(slots, vec![None, Some(vec![5])]);
    assert!(!progress.is_live());
    assert_eq!(deliver(&mut progress, 0, vec![1]), Err(vec![1]));
    assert_eq!(poll(&mut progress), Poll::Pending);
    let (progress, slots) = progress.release();
    assert!(!progress.is_live());
    assert!(slots.is_empty());
}

#[test]
fn wanted_vectors() {
    let progress = Progress::<u8>::new(1);
    assert!(progress.is_wanted(2));
    assert!(!progress.is_wanted(1));
    let (progress, _) = progress.release();
    assert!(!progress.is_wanted(2));
}

#[test]
fn no_task_is_no_wait() {
    let mut progress = Progress::<u8>::new(0);
    assert_eq!(progress.outstanding_tasks(), 0);
    assert_eq!(poll(&mut progress), Poll::Ready(vec![]));
}

#[test]
fn any_order_gives_the_same_slots() {
    let orders = [[0, 1, 2], [0, 2, 1], [1, 0, 2], [1, 2, 0], [2, 0, 1], [2, 1, 0]];
    for order in orders {
        let mut progress = Progress::new(3);
        for (n, k) in order.into_iter().enumerate() {
            let slice = vec![10 * k, 10 * k + 1];
            assert_eq!(deliver(&mut progress, k, slice), Ok(n == 2));
        }
        assert_eq!(
            poll(&mut progress),
            Poll::Ready(vec![Some(vec![0, 1]), Some(vec![10, 11]), Some(vec![20, 21])])
        );
    }
}
