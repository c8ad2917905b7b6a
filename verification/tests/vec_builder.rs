use std::collections::hash_map::DefaultHasher;
use std::future::Future;
use std::hash::{Hash, Hasher};
use std::pin::Pin;
use std::sync::atomic::{AtomicUsize, Ordering};
use std::sync::Arc;
use std::task::{Context, Poll, Wake, Waker};
use vec_parallel::label::task_label;
use vec_parallel::task::next_element;
use vec_parallel::{
    build_vec, build_vec_on, SliceTask, SliceTaskError, Strategy, VecBuilder, VecResult,
};

/// A task that an executor can poll.
struct TaskFuture<T, B>(SliceTask<T, B>);

impl<T, B: FnMut(usize) -> T + Unpin> Future for TaskFuture<T, B> {
    type Output = ();

    fn poll(self: Pin<&mut Self>, _cx: &mut Context<'_>) -> Poll<()> {
        self.get_mut().0.poll().map(|outcome| outcome.unwrap())
    }
}

/// A result that an executor can poll.
struct ResultFuture<I>(VecResult<I>);

impl<I> Future for ResultFuture<I> {
    type Output = Vec<I>;

    fn poll(self: Pin<&mut Self>, cx: &mut Context<'_>) -> Poll<Vec<I>> {
        self.get_mut().0.poll(cx.waker())
    }
}

/// A waker that counts how often it is woken.
struct Counter(AtomicUsize);

impl Wake for Counter {
    fn wake(self: Arc<Self>) {
        self.0.fetch_add(1, Ordering::SeqCst);
    }
}

fn finish<T, B: FnMut(usize) -> T + Unpin>(builder: VecBuilder<T, B>) -> Vec<T> {
    for task in builder.tasks {
        test_executors::spin_on(TaskFuture(task));
    }
    test_executors::spin_on(ResultFuture(builder.result))
}

#[test]
fn test_build_vec() {
    let builder = build_vec(10, Strategy::One, |i: usize| i);
    for task in builder.tasks {
        test_executors::spin_on(TaskFuture(task));
    }
    let o = test_executors::spin_on(ResultFuture(builder.result));
    assert_eq!(o, (0..10).collect::<Vec<_>>());
}

#[test]
fn test_build_vec_tasks() {
    let builder = build_vec(10, Strategy::Tasks(2), |i: usize| i);
    assert_eq!(builder.tasks.len(), 2);
    assert_eq!(builder.tasks[0].start(), 0);
    assert_eq!(builder.tasks[0].past_end(), 5);
    assert_eq!(builder.tasks[1].start(), 5);
    assert_eq!(builder.tasks[1].past_end(), 10);
}

#[test]
fn test_build_vec_tasks_11() {
    let builder = build_vec(13, Strategy::Tasks(3), |i: usize| i);
    assert_eq!(builder.tasks.len(), 3);
    assert_eq!(builder.tasks[0].start(), 0);
    assert_eq!(builder.tasks[0].past_end(), 4);
    assert_eq!(builder.tasks[1].start(), 4);
    assert_eq!(builder.tasks[1].past_end(), 8);
    assert_eq!(builder.tasks[2].start(), 8);
    assert_eq!(builder.tasks[2].past_end(), 13);
}

#[test]
fn test_build_vec_tasks_103() {
    let builder = build_vec(103, Strategy::Tasks(3), |i: usize| i);
    assert_eq!(builder.tasks.len(), 3);
    assert_eq!(builder.tasks[0].start(), 0);
    assert_eq!(builder.tasks[0].past_end(), 34);
    assert_eq!(builder.tasks[1].start(), 34);
    assert_eq!(builder.tasks[1].past_end(), 68);
    assert_eq!(builder.tasks[2].start(), 68);
    assert_eq!(builder.tasks[2].past_end(), 103);
}

#[test]
fn test_max() {
    let builder = build_vec(10, Strategy::Max, |i: usize| i);
    assert_eq!(builder.tasks.len(), 10);
    let mut start = 0;
    for task in builder.tasks {
        assert_eq!(task.start(), start);
        assert_eq!(task.past_end(), start + 1);
        start += 1;
    }
}

#[test]
fn test_too_many_tasks() {
    let builder = build_vec(10, Strategy::Tasks(20), |i: usize| i);
    assert_eq!(builder.tasks.len(), 10);
    let mut start = 0;
    for task in builder.tasks {
        assert_eq!(task.start(), start);
        assert_eq!(task.past_end(), start + 1);
        start += 1;
    }
}

#[test]
fn test_tasks_per_core() {
    let builder = build_vec(1000, Strategy::TasksPerCore(2), |i: usize| i);
    let cpus = num_cpus::get();
    assert_eq!(builder.tasks.len(), 2 * cpus);
    let mut start = 0;
    for task in builder.tasks {
        assert_eq!(task.start(), start);
        assert!(task.past_end() > start);
        start = task.past_end();
    }
}

#[test]
fn test_send() {
    fn is_send<T: Send>(_t: &T) {}
    fn is_static<T: 'static>(_t: &T) {}

    let mut builder = build_vec(1000, Strategy::TasksPerCore(2), |i: usize| i);
    let a_task = builder.tasks.remove(0);

    is_send(&a_task);
    is_static(&a_task);

    let a_result = builder.result;
    is_send(&a_result);
    is_static(&a_result);
}

#[test]
fn squares_per_core() {
    let squares = finish(build_vec(100, Strategy::TasksPerCore(4), |i| i * i));
    assert_eq!(squares.len(), 100);
    assert_eq!(squares[10], 100);
}

#[test]
fn squares_of_two_tasks() {
    let squares = finish(build_vec(10, Strategy::Tasks(2), |i| i * i));
    assert_eq!(squares, vec![0, 1, 4, 9, 16, 25, 36, 49, 64, 81]);
}

#[test]
fn four_tasks_of_twenty_five() {
    let builder = build_vec(100, Strategy::Tasks(4), |i| i);
    assert_eq!(builder.tasks.len(), 4);
    for task in &builder.tasks {
        assert_eq!(task.past_end() - task.start(), 25);
    }
}

#[test]
fn run_a_single_task() {
    let mut builder = build_vec(10, Strategy::One, |i| i * 2);
    assert!(!builder.tasks[0].is_complete());
    builder.tasks[0].run().unwrap();
    assert!(builder.tasks[0].is_complete());
    let result = test_executors::spin_on(ResultFuture(builder.result));
    assert_eq!(result, vec![0, 2, 4, 6, 8, 10, 12, 14, 16, 18]);
}

#[test]
fn elements_that_own_memory() {
    let items = finish(build_vec(5, Strategy::Max, |i| format!("Item {}", i)));
    assert_eq!(items[0], "Item 0");
    assert_eq!(items[4], "Item 4");
}

#[test]
fn closure_with_captured_state() {
    let offset = 100;
    let result = finish(build_vec(5, Strategy::Max, move |i| i + offset));
    assert_eq!(result, vec![100, 101, 102, 103, 104]);
}

#[test]
fn each_task_has_its_own_state() {
    let mut calls = 0;
    let counted = finish(build_vec(6, Strategy::Tasks(3), move |i| {
        calls += 1;
        (i, calls)
    }));
    assert_eq!(counted, vec![(0, 1), (1, 2), (2, 1), (3, 2), (4, 1), (5, 2)]);
}

#[test]
fn tasks_in_reverse_order() {
    let mut builder = build_vec(13, Strategy::Tasks(3), |i| i);
    for task in builder.tasks.iter_mut().rev() {
        task.run().unwrap();
    }
    assert_eq!(
        builder.result.poll(Waker::noop()),
        Poll::Ready((0..13).collect::<Vec<_>>())
    );
}

#[test]
fn tasks_on_threads() {
    let builder = build_vec(1000, Strategy::Tasks(8), |i| 3 * i);
    for task in builder.tasks {
        test_executors::spawn_on("slice", TaskFuture(task));
    }
    let vec = test_executors::sleep_on(ResultFuture(builder.result));
    assert_eq!(vec, (0..1000).map(|i| 3 * i).collect::<Vec<_>>());
}

#[test]
fn result_is_pending_until_the_last_task() {
    let mut builder = build_vec(4, Strategy::Tasks(2), |i| i);
    assert_eq!(builder.result.poll(Waker::noop()), Poll::Pending);
    builder.tasks[1].run().unwrap();
    assert_eq!(builder.result.poll(Waker::noop()), Poll::Pending);
    assert!(!builder.result.is_complete());
    builder.tasks[0].run().unwrap();
    assert_eq!(builder.result.poll(Waker::noop()), Poll::Ready(vec![0, 1, 2, 3]));
    assert!(builder.result.is_complete());
}

#[test]
fn last_task_wakes_the_waiter() {
    let counter = Arc::new(Counter(AtomicUsize::new(0)));
    let waker = Waker::from(counter.clone());
    let mut builder = build_vec(6, Strategy::Tasks(3), |i| i);
    assert_eq!(builder.result.poll(&waker), Poll::Pending);
    builder.tasks[2].run().unwrap();
    builder.tasks[0].run().unwrap();
    assert_eq!(counter.0.load(Ordering::SeqCst), 0);
    builder.tasks[1].run().unwrap();
    assert_eq!(counter.0.load(Ordering::SeqCst), 1);
    assert_eq!(builder.result.poll(&waker), Poll::Ready(vec![0, 1, 2, 3, 4, 5]));
}

#[test]
fn newest_waker_is_woken() {
    let first = Arc::new(Counter(AtomicUsize::new(0)));
    let second = Arc::new(Counter(AtomicUsize::new(0)));
    let mut builder = build_vec(1, Strategy::One, |i| i);
    assert_eq!(builder.result.poll(&Waker::from(first.clone())), Poll::Pending);
    assert_eq!(builder.result.poll(&Waker::from(second.clone())), Poll::Pending);
    builder.tasks[0].run().unwrap();
    assert_eq!(first.0.load(Ordering::SeqCst), 0);
    assert_eq!(second.0.load(Ordering::SeqCst), 1);
}

#[test]
fn task_of_an_abandoned_result() {
    let calls = Arc::new(AtomicUsize::new(0));
    let counted = calls.clone();
    let mut builder = build_vec(4, Strategy::Tasks(2), move |i| {
        counted.fetch_add(1, Ordering::SeqCst);
        i
    });
    assert_eq!(builder.tasks[1].run(), Ok(()));
    assert_eq!(calls.load(Ordering::SeqCst), 2);
    builder.result.abandon();
    assert!(builder.result.is_complete());
    assert_eq!(builder.tasks[0].run(), Err(SliceTaskError::Deallocated));
    assert!(!builder.tasks[0].is_complete());
    assert_eq!(
        builder.tasks[0].poll(),
        Poll::Ready(Err(SliceTaskError::Deallocated))
    );
    assert!(!builder.tasks[0].is_complete());
    assert_eq!(calls.load(Ordering::SeqCst), 2);
}

#[test]
fn task_of_a_dropped_result() {
    let calls = Arc::new(AtomicUsize::new(0));
    let counted = calls.clone();
    let VecBuilder { mut tasks, result } = build_vec(10, Strategy::Tasks(2), move |i| {
        counted.fetch_add(1, Ordering::SeqCst);
        i
    });
    assert!(tasks[0].is_live());
    assert_eq!(tasks[1].run(), Ok(()));
    assert!(tasks[0].is_live());
    drop(result);
    assert!(!tasks[0].is_live());
    assert_eq!(
        tasks[0].poll(),
        Poll::Ready(Err(SliceTaskError::Deallocated))
    );
    assert_eq!(tasks[0].run(), Err(SliceTaskError::Deallocated));
    assert!(!tasks[0].is_complete());
    assert_eq!(calls.load(Ordering::SeqCst), 5);
}

#[test]
fn elements_of_an_abandoned_result_are_dropped() {
    let counter = Arc::new(());
    let element = counter.clone();
    let mut builder = build_vec(4, Strategy::Tasks(2), move |_| element.clone());
    builder.tasks[0].run().unwrap();
    let before = Arc::strong_count(&counter);
    builder.result.abandon();
    assert_eq!(Arc::strong_count(&counter), before - 2);
}

#[test]
fn task_of_a_finished_vector() {
    let mut builder = build_vec(4, Strategy::Tasks(2), |i| i);
    builder.tasks[0].run().unwrap();
    assert_eq!(builder.tasks[1].poll(), Poll::Ready(Ok(())));
    assert!(builder.tasks[1].is_complete());
    assert!(builder.tasks[1].is_live());
    assert_eq!(builder.result.poll(Waker::noop()), Poll::Ready(vec![0, 1, 2, 3]));
    assert!(!builder.tasks[1].is_live());
    assert!(builder.result.is_complete());
    builder.result.abandon();
    assert!(builder.result.is_complete());
}

#[test]
fn elements_are_built_in_ascending_order() {
    let indices = Arc::new(std::sync::Mutex::new(Vec::new()));
    let seen = indices.clone();
    let mut builder = build_vec(10, Strategy::Tasks(2), move |i: usize| {
        seen.lock().unwrap().push(i);
        i
    });
    builder.tasks[1].run().unwrap();
    assert_eq!(*indices.lock().unwrap(), vec![5, 6, 7, 8, 9]);
    builder.tasks[0].run().unwrap();
    assert_eq!(*indices.lock().unwrap(), vec![5, 6, 7, 8, 9, 0, 1, 2, 3, 4]);
}

#[test]
fn element_that_follows() {
    let mut square = |i: usize| i * i;
    assert_eq!(next_element(&mut square, 3, &vec![]), 9);
    assert_eq!(next_element(&mut square, 3, &vec![9, 16]), 25);
}

#[test]
fn no_elements_no_tasks() {
    for strategy in [
        Strategy::One,
        Strategy::Tasks(4),
        Strategy::Max,
        Strategy::TasksPerCore(2),
    ] {
        let mut builder = build_vec(0, strategy, |i: usize| i);
        assert_eq!(builder.tasks.len(), 0);
        assert_eq!(builder.result.poll(Waker::noop()), Poll::Ready(vec![]));
        assert!(builder.result.is_complete());
    }
}

#[test]
fn only_the_second_task() {
    let mut builder = build_vec(20, Strategy::Tasks(2), |i| i * 3);
    assert_eq!(builder.tasks.len(), 2);
    assert_eq!(builder.tasks[1].poll(), Poll::Ready(Ok(())));
    assert_eq!(builder.result.poll(Waker::noop()), Poll::Pending);
    assert!(!builder.tasks[0].is_complete());
    assert_eq!(builder.tasks[0].build_slice(), (0..10).map(|i| i * 3).collect::<Vec<_>>());
    assert_eq!(builder.tasks[0].poll(), Poll::Ready(Ok(())));
    assert_eq!(
        builder.result.poll(Waker::noop()),
        Poll::Ready((0..20).map(|i| i * 3).collect::<Vec<_>>())
    );
}

#[test]
fn single_task_is_sequential() {
    let mut sum = 0;
    let f = move |i: usize| {
        sum += i;
        sum
    };
    let expected: Vec<usize> = (0..10).map(f).collect();
    let mut builder = build_vec(10, Strategy::One, f);
    assert_eq!(builder.tasks.len(), 1);
    builder.tasks[0].run().unwrap();
    assert_eq!(builder.result.poll(Waker::noop()), Poll::Ready(expected));
}

#[test]
fn cores_of_the_machine() {
    let builder = build_vec_on(1000, Strategy::TasksPerCore(4), |i: usize| i, 4);
    assert_eq!(builder.tasks.len(), 16);
    assert_eq!(builder.tasks[15].past_end(), 1000);
}

#[test]
fn equal_tasks() {
    let f = |i: usize| i;
    let one = build_vec(10, Strategy::Tasks(2), f).tasks;
    let other = build_vec(10, Strategy::Tasks(2), f).tasks;
    assert!(one[0] == one[0]);
    assert!(one[0] != one[1]);
    assert!(one[0] != other[0]);
    assert!(other[1] == other[1]);
}

#[test]
fn hashes_of_tasks() {
    fn hash<T, B>(task: &SliceTask<T, B>) -> u64 {
        let mut state = DefaultHasher::new();
        task.hash(&mut state);
        state.finish()
    }
    let f = |i: usize| i;
    let first = build_vec(10, Strategy::Tasks(2), f).tasks;
    let second = build_vec(10, Strategy::Tasks(2), f).tasks;
    assert_eq!(hash(&first[0]), hash(&first[0]));
    let mut builder = build_vec(10, Strategy::Tasks(2), f);
    let before = hash(&builder.tasks[0]);
    builder.tasks[0].run().unwrap();
    assert_eq!(hash(&builder.tasks[0]), before);
    assert_ne!(hash(&first[0]), hash(&first[1]));
    assert_ne!(hash(&first[0]), hash(&second[0]));
}

#[test]
fn words_that_are_hashed() {
    /// A hasher that keeps what it is fed.
    struct Recorder(Vec<usize>);

    impl Hasher for Recorder {
        fn finish(&self) -> u64 {
            0
        }

        fn write(&mut self, _bytes: &[u8]) {
            unreachable!()
        }

        fn write_usize(&mut self, word: usize) {
            self.0.push(word);
        }
    }

    let tasks = build_vec(10, Strategy::Tasks(2), |i: usize| i).tasks;
    let mut first = Recorder(Vec::new());
    let mut second = Recorder(Vec::new());
    tasks[0].hash(&mut first);
    tasks[1].hash(&mut second);
    assert_eq!(first.0[..2], [0, 5]);
    assert_eq!(second.0[..2], [5, 10]);
    assert_eq!(first.0.len(), 3);
    assert_eq!(first.0[2], second.0[2]);
    assert_eq!(first.0, tasks[0].hash_input().to_vec());
}

#[test]
fn labels() {
    assert_eq!(task_label(0), "VecBuilder task 0");
    assert_eq!(task_label(9), "VecBuilder task 9");
    assert_eq!(task_label(10), "VecBuilder task 10");
    assert_eq!(task_label(1234567890), "VecBuilder task 1234567890");
    assert_eq!(task_label(usize::MAX), format!("VecBuilder task {}", usize::MAX));
}

#[test]
fn labelled_tasks() {
    let builder = build_vec(12, Strategy::Max, |i: usize| i);
    let (tasks, mut result) = builder.into_labelled_tasks();
    assert_eq!(tasks.len(), 12);
    for (t, (label, mut task)) in tasks.into_iter().enumerate() {
        assert_eq!(label, format!("VecBuilder task {}", t));
        assert_eq!(task.start(), t);
        task.run().unwrap();
    }
    assert_eq!(
        result.poll(Waker::noop()),
        Poll::Ready((0..12).collect::<Vec<_>>())
    );
}
