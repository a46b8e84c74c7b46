# mini-rt

A small async runtime: tasks, a run queue, wakers, `block_on`, `spawn` and
`sleep`. The runtime's decisions are verified state machines: what is polled
next, who is woken, when a task is dropped, when a timer fires. Locks, threads,
clocks and the polling of `std` futures stay outside and perform the actions
that the machines ask for. Whether the platform's clock can count to the end of
a sleep is the clock's to say; `sleep` takes its answer.

## Layout

- `src/queue.rs`: the run queue.
- `src/waker.rs`: the counted reference by which a task is woken.
- `src/join.rs`: the state shared with the one who awaits a result.
- `src/model.rs`: what an executor is, as a mathematical object.
- `src/executor.rs`: the executor, `spawn` and `block_on`.
- `src/time.rs`, `src/timer.rs`, `src/heap.rs`, `src/timers.rs`: time, one
  timer, the pending timers, and `sleep` with the timer thread's decisions.
- `src/laws.rs`, `src/parking.rs`, `src/timer_laws.rs`: what holds over any
  number of operations.
- `app/`: the runtime for `std` futures around the library, and an example.

## How it fits together

An `Executor` is kept behind a lock. The executor thread asks `BlockOn::step`
what to do: poll a future with a waker, park, or return the result. It polls
without holding the lock and reports the outcome with `Executor::polled`. Any
thread may wake a task meanwhile. Values that an operation lets go of are handed
back to the caller, to be dropped outside of the lock.

`Timers` are kept behind a lock as well. The timer thread asks `Timers::wait`
what to wait for, and reports what came of it with `Timers::handle`.
