# vec_parallel

Building a `Vec<T>` in parallel: the work is divided among tasks that can run concurrently, on any
threads and in any order, and the vector is handed out once the last of them is done.

```rust
let mut builder = build_vec(10, Strategy::Tasks(2), |i| i * i);
for task in &mut builder.tasks {
    task.run()?;
}
let squares = builder.result.poll(&waker); // Poll::Ready([0, 1, 4, ..])
```

The library is written in Verus. It proves that

- the ranges of the tasks are a partition of the indices, none of them empty, all but the last of
  one size;
- a task that runs builds its elements with its clone of the closure in ascending order, each when
  the ones before are there, puts them into its own slot and no other, and after that wakes whoever
  waits if no slot is left empty; a task whose vector is gone builds nothing and says so;
- whoever asks for the vector leaves a waker before the slots are looked at;
- a vector that is handed out has an element for every index, and the element at index `i` is what
  a clone of the closure returned for `i`, whatever the tasks do to each other on other threads.

What a build does as a whole is proved of its history, that is, of what the lock around its slots
holds from one delivery to the next: every delivery fills one slot more, whatever the order; as
long as one is empty, the result is pending; when none is, the result is ready with the whole
vector; and whoever was told to wait has left a waker before the last delivery, which wakes it.
That a lock hands out what was put into it last is left to the lock.

What is proved of calls is that they are made, and what had to be made before them. That there are
no others, such as a second call of the closure for one index, is not. A closure may have state: it
is taken for what it may return in any state that its calls lead to.

## Layout

- `src/` is the verified library. Its contracts on wakers, on the number of cores, on shared
  pointers and on hashers are trusted; they stand in `src/outside.rs`.
- `tests/` runs it.
- `app/` makes futures of tasks and results, and spawns them on an executor.

## What it costs

- Each task builds a vector of its own, and the elements are moved once more when the slices are
  put together. The vector is not built in place.
- The slots and the count of outstanding tasks are kept under a lock whose invariant is the plan of
  the build. It is held to move a slice in, or all of them out, and never while elements are
  built, moved one by one or dropped.
- The lock asks for elements that are `Send` and `Sync` before tasks can move to other threads.
- The lock never drops what it holds. Tasks notice that a result has been dropped and refuse to
  run, but slices that they have delivered by then are leaked unless the result is abandoned. The
  future in `app/` abandons it when it is dropped.
