use mini_rt::{
    block_on, spawn, Action, BlockOn, Executor, Outcome, Poll, RawWaker, TaskId,
};

/// Futures are names, results are numbers, wakers are letters.
type Rt = Executor<&'static str, u32, char>;

fn expect_poll(rt: &mut Rt, main: &BlockOn) -> (TaskId, &'static str, RawWaker) {
    match main.step(rt) {
        Action::Poll { task, fut, waker } => (task, fut, waker),
        Action::Park => panic!("parked"),
        Action::Return(_) => panic!("returned"),
    }
}

fn expect_park(rt: &mut Rt, main: &BlockOn) {
    assert!(matches!(main.step(rt), Action::Park));
}

/// Polls the next task, which has to be `name`, to its end.
fn finish_next(rt: &mut Rt, main: &BlockOn, name: &str, result: u32) -> Option<char> {
    let (task, fut, waker) = expect_poll(rt, main);
    assert_eq!(fut, name);
    let (joiner, released) = rt.polled(task, Outcome::Ready(result));
    assert!(released.fut.is_none());
    rt.drop_waker(waker);
    joiner
}

#[test]
fn tasks_run_in_the_order_they_were_spawned() {
    let mut rt = Rt::new();
    let (_a, rejected) = spawn(&mut rt, "a");
    assert!(rejected.is_none());
    let (_b, _) = spawn(&mut rt, "b");
    let (main, _) = block_on(&mut rt, "main");
    assert_eq!(main.id(), 2);
    finish_next(&mut rt, &main, "a", 1);
    finish_next(&mut rt, &main, "b", 2);
    finish_next(&mut rt, &main, "main", 3);
    assert!(matches!(main.step(&mut rt), Action::Return(3)));
}

#[test]
fn ready_tasks_run_before_the_result_is_returned() {
    let mut rt = Rt::new();
    let (main, _) = block_on(&mut rt, "main");
    let (task, _, waker) = expect_poll(&mut rt, &main);
    let (_late, _) = spawn(&mut rt, "late");
    rt.polled(task, Outcome::Ready(5));
    rt.drop_waker(waker);
    finish_next(&mut rt, &main, "late", 6);
    assert!(matches!(main.step(&mut rt), Action::Return(5)));
}

#[test]
fn spawn_asks_for_an_unpark() {
    let mut rt = Rt::new();
    let (_a, _) = spawn(&mut rt, "a");
    assert!(rt.take_unpark());
    assert!(!rt.take_unpark());
}

#[test]
fn join_gets_the_result_once_and_its_waker_is_handed_out() {
    let mut rt = Rt::new();
    let (mut handle, _) = spawn(&mut rt, "a");
    let (main, _) = block_on(&mut rt, "main");
    assert_eq!(handle.poll_with(&mut rt, 'x', false), (Poll::Pending, None));
    assert_eq!(handle.poll_with(&mut rt, 'y', false), (Poll::Pending, Some('x')));
    assert_eq!(handle.poll(&mut rt, &'y', |a, b| a == b), (Poll::Pending, None));
    assert_eq!(finish_next(&mut rt, &main, "a", 11), Some('y'));
    assert_eq!(handle.poll(&mut rt, &'z', |a, b| a == b), (Poll::Ready(11), None));
    assert_eq!(handle.poll(&mut rt, &'z', |a, b| a == b), (Poll::Pending, None));
}

#[test]
fn joiner_needs_a_waker_until_the_right_one_is_on_record() {
    let mut rt = Rt::new();
    let (mut handle, _) = spawn(&mut rt, "a");
    let (main, _) = block_on(&mut rt, "main");
    assert!(handle.needs_waker(&rt, |_| true));
    handle.poll_with(&mut rt, 'x', false);
    assert!(!handle.needs_waker(&rt, |w| *w == 'x'));
    assert!(handle.needs_waker(&rt, |w| *w == 'y'));
    finish_next(&mut rt, &main, "a", 11);
    assert!(!handle.needs_waker(&rt, |_| false));
    assert_eq!(handle.poll_with(&mut rt, 'y', false), (Poll::Ready(11), Some('y')));
    assert!(handle.needs_waker(&rt, |_| true));
}

#[test]
fn result_waits_for_its_handle() {
    let mut rt = Rt::new();
    let (mut handle, _) = spawn(&mut rt, "a");
    let (main, _) = block_on(&mut rt, "main");
    assert_eq!(finish_next(&mut rt, &main, "a", 11), None);
    let (_b, _) = spawn(&mut rt, "b");
    finish_next(&mut rt, &main, "main", 0);
    finish_next(&mut rt, &main, "b", 12);
    assert!(matches!(main.step(&mut rt), Action::Return(0)));
    assert_eq!(handle.id(), 0);
    assert_eq!(handle.poll_with(&mut rt, 'x', false), (Poll::Ready(11), Some('x')));
}

#[test]
fn pending_task_runs_again_when_it_is_woken() {
    let mut rt = Rt::new();
    let (main, _) = block_on(&mut rt, "main");
    let (task, fut, waker) = expect_poll(&mut rt, &main);
    rt.polled(task, Outcome::Pending(fut));
    rt.take_unpark();
    expect_park(&mut rt, &main);
    rt.wake_by_ref(&waker);
    assert!(rt.take_unpark());
    let (again, fut, second) = expect_poll(&mut rt, &main);
    assert_eq!((again, fut), (task, "main"));
    assert!(second.will_wake(&waker));
    rt.polled(task, Outcome::Pending("main, later"));
    rt.drop_waker(second);
    let released = rt.wake(waker);
    assert!(released.fut.is_none());
    assert_eq!(finish_next(&mut rt, &main, "main, later", 4), None);
    assert!(matches!(main.step(&mut rt), Action::Return(4)));
}

#[test]
fn task_woken_during_its_poll_runs_again() {
    let mut rt = Rt::new();
    let (main, _) = block_on(&mut rt, "main");
    let (task, fut, waker) = expect_poll(&mut rt, &main);
    rt.wake_by_ref(&waker);
    rt.polled(task, Outcome::Pending(fut));
    rt.drop_waker(waker);
    finish_next(&mut rt, &main, "main", 1);
    assert!(matches!(main.step(&mut rt), Action::Return(1)));
}

#[test]
fn task_woken_twice_is_queued_twice() {
    let mut rt = Rt::new();
    let (main, _) = block_on(&mut rt, "main");
    let (task, fut, waker) = expect_poll(&mut rt, &main);
    assert_eq!(rt.strong_count(&waker), 1);
    rt.wake_by_ref(&waker);
    rt.wake_by_ref(&waker);
    assert_eq!(rt.strong_count(&waker), 3);
    rt.polled(task, Outcome::Pending(fut));
    let (_, fut, second) = expect_poll(&mut rt, &main);
    rt.polled(task, Outcome::Pending(fut));
    rt.drop_waker(second);
    let (_, _, third) = expect_poll(&mut rt, &main);
    rt.polled(task, Outcome::Ready(2));
    rt.drop_waker(third);
    rt.drop_waker(waker);
    assert!(matches!(main.step(&mut rt), Action::Return(2)));
}

#[test]
fn task_is_polled_no_more_often_than_it_is_woken() {
    let mut rt = Rt::new();
    let (main, _) = block_on(&mut rt, "main");
    let (task, fut, waker) = expect_poll(&mut rt, &main);
    rt.polled(task, Outcome::Pending(fut));
    expect_park(&mut rt, &main);
    rt.wake_by_ref(&waker);
    let (_, fut, second) = expect_poll(&mut rt, &main);
    rt.polled(task, Outcome::Pending(fut));
    rt.drop_waker(second);
    expect_park(&mut rt, &main);
    expect_park(&mut rt, &main);
    assert_eq!(rt.drop_waker(waker).fut, Some("main"));
}

#[test]
fn finished_task_is_not_polled_again() {
    let mut rt = Rt::new();
    let (main, _) = block_on(&mut rt, "main");
    let (task, _, waker) = expect_poll(&mut rt, &main);
    rt.polled(task, Outcome::Ready(8));
    rt.wake_by_ref(&waker);
    rt.wake(waker);
    assert!(matches!(main.step(&mut rt), Action::Return(8)));
}

#[test]
fn running_task_is_passed_over() {
    let mut rt = Rt::new();
    let (outer, _) = block_on(&mut rt, "outer");
    let (task, fut, waker) = expect_poll(&mut rt, &outer);
    // From within the poll of "outer".
    let (inner, _) = block_on(&mut rt, "inner");
    rt.wake_by_ref(&waker);
    finish_next(&mut rt, &inner, "inner", 1);
    assert!(matches!(inner.step(&mut rt), Action::Return(1)));
    // The wake-up was used up by the inner loop.
    rt.polled(task, Outcome::Pending(fut));
    expect_park(&mut rt, &outer);
    rt.wake(waker);
    finish_next(&mut rt, &outer, "outer", 2);
    assert!(matches!(outer.step(&mut rt), Action::Return(2)));
}

#[test]
fn pending_task_without_a_waker_is_dropped() {
    let mut rt = Rt::new();
    let (mut handle, _) = spawn(&mut rt, "a");
    let (main, _) = block_on(&mut rt, "main");
    let (task, fut, waker) = expect_poll(&mut rt, &main);
    let (joiner, released) = rt.polled(task, Outcome::Pending(fut));
    assert_eq!(joiner, None);
    assert!(released.fut.is_none());
    let released = rt.drop_waker(waker);
    assert_eq!(released.fut, Some("a"));
    assert!(released.cell.is_none());
    assert_eq!(handle.poll_with(&mut rt, 'x', false), (Poll::Pending, None));
}

#[test]
fn task_is_dropped_at_the_end_of_its_poll_if_the_waker_is_gone() {
    let mut rt = Rt::new();
    let (main, _) = block_on(&mut rt, "main");
    let (task, fut, waker) = expect_poll(&mut rt, &main);
    assert!(rt.drop_waker(waker).fut.is_none());
    let (_, released) = rt.polled(task, Outcome::Pending(fut));
    assert_eq!(released.fut, Some("main"));
    expect_park(&mut rt, &main);
}

#[test]
fn cloned_waker_keeps_the_task() {
    let mut rt = Rt::new();
    let (main, _) = block_on(&mut rt, "main");
    let (task, fut, waker) = expect_poll(&mut rt, &main);
    let clone = rt.clone_waker(&waker);
    assert_eq!(rt.strong_count(&waker), 2);
    rt.polled(task, Outcome::Pending(fut));
    assert!(rt.drop_waker(waker).fut.is_none());
    assert_eq!(rt.strong_count(&clone), 1);
    rt.wake(clone);
    finish_next(&mut rt, &main, "main", 1);
    assert!(matches!(main.step(&mut rt), Action::Return(1)));
}

#[test]
fn detached_task_runs_on_and_its_result_is_released() {
    let mut rt = Rt::new();
    let (mut handle, _) = spawn(&mut rt, "a");
    let (main, _) = block_on(&mut rt, "main");
    handle.poll_with(&mut rt, 'x', false);
    assert!(handle.detach(&mut rt).is_none());
    let (task, fut, waker) = expect_poll(&mut rt, &main);
    assert_eq!(fut, "a");
    let (joiner, released) = rt.polled(task, Outcome::Ready(9));
    assert_eq!(joiner, Some('x'));
    assert_eq!(released.cell.and_then(|cell| cell.result), Some(9));
    rt.drop_waker(waker);
}

#[test]
fn detaching_after_the_end_releases_the_result() {
    let mut rt = Rt::new();
    let (handle, _) = spawn(&mut rt, "a");
    let (main, _) = block_on(&mut rt, "main");
    finish_next(&mut rt, &main, "a", 9);
    assert_eq!(handle.detach(&mut rt).and_then(|cell| cell.result), Some(9));
}

#[test]
fn dropping_the_last_waker_of_a_detached_task_releases_its_cell() {
    let mut rt = Rt::new();
    let (mut handle, _) = spawn(&mut rt, "a");
    let (main, _) = block_on(&mut rt, "main");
    handle.poll_with(&mut rt, 'x', false);
    handle.detach(&mut rt);
    let (task, fut, waker) = expect_poll(&mut rt, &main);
    rt.polled(task, Outcome::Pending(fut));
    let released = rt.drop_waker(waker);
    assert_eq!(released.fut, Some("a"));
    assert_eq!(released.cell.and_then(|cell| cell.waker), Some('x'));
}

#[test]
fn panicking_task_never_has_a_result() {
    let mut rt = Rt::new();
    let (mut handle, _) = spawn(&mut rt, "a");
    let (main, _) = block_on(&mut rt, "main");
    handle.poll_with(&mut rt, 'x', false);
    let (task, _, waker) = expect_poll(&mut rt, &main);
    let (joiner, _) = rt.polled(task, Outcome::Unwound);
    assert_eq!(joiner, None);
    rt.wake(waker);
    finish_next(&mut rt, &main, "main", 1);
    assert_eq!(handle.poll_with(&mut rt, 'x', true), (Poll::Pending, Some('x')));
}

#[test]
fn abandoned_block_on_leaves_its_task() {
    let mut rt = Rt::new();
    let (main, _) = block_on(&mut rt, "main");
    assert!(main.abandon(&mut rt).is_none());
    let (next, _) = block_on(&mut rt, "next");
    let (task, fut, waker) = expect_poll(&mut rt, &next);
    assert_eq!(fut, "main");
    let (_, released) = rt.polled(task, Outcome::Ready(3));
    assert_eq!(released.cell.and_then(|cell| cell.result), Some(3));
    rt.drop_waker(waker);
    finish_next(&mut rt, &next, "next", 4);
    assert!(matches!(next.step(&mut rt), Action::Return(4)));
}

#[test]
fn poisoned_executor_takes_and_runs_nothing() {
    let mut rt = Rt::new();
    let (main, _) = block_on(&mut rt, "main");
    let (task, fut, waker) = expect_poll(&mut rt, &main);
    rt.polled(task, Outcome::Pending(fut));
    rt.take_unpark();
    rt.poison();
    let (mut handle, rejected) = spawn(&mut rt, "a");
    assert_eq!(rejected, Some("a"));
    assert!(rt.take_unpark());
    assert_eq!(handle.poll_with(&mut rt, 'x', false), (Poll::Pending, None));
    rt.wake_by_ref(&waker);
    assert!(rt.take_unpark());
    assert_eq!(rt.strong_count(&waker), 1);
    expect_park(&mut rt, &main);
    assert_eq!(rt.wake(waker).fut, Some("main"));
}

#[test]
fn ids_are_not_used_twice() {
    let mut rt = Rt::new();
    assert!(rt.can_spawn());
    let (main, _) = block_on(&mut rt, "main");
    finish_next(&mut rt, &main, "main", 1);
    assert!(matches!(main.step(&mut rt), Action::Return(1)));
    let (handle, _) = spawn(&mut rt, "a");
    assert_eq!((main.id(), handle.id()), (0, 1));
}
