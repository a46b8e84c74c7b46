use mini_rt::queue::INITIAL_CAPACITY;
use mini_rt::{get_raw_waker, RunQueue};

#[test]
fn fresh_queue_is_empty() {
    let mut queue = RunQueue::new();
    assert_eq!(queue.pop(), None);
    assert!(!queue.is_poisoned());
    assert!(!queue.take_unpark());
}

#[test]
fn queue_is_first_in_first_out() {
    let mut queue = RunQueue::new();
    for id in [7, 3, 3, 9] {
        queue.push(id);
    }
    assert_eq!(queue.pop(), Some(7));
    queue.push(1);
    assert_eq!(queue.pop(), Some(3));
    assert_eq!(queue.pop(), Some(3));
    assert_eq!(queue.pop(), Some(9));
    assert_eq!(queue.pop(), Some(1));
    assert_eq!(queue.pop(), None);
}

#[test]
fn queue_grows_past_its_initial_capacity() {
    let mut queue = RunQueue::new();
    let many = INITIAL_CAPACITY as u64 + 1;
    for id in 0..many {
        queue.push(id);
    }
    for id in 0..many {
        assert_eq!(queue.pop(), Some(id));
    }
    assert_eq!(queue.pop(), None);
}

#[test]
fn every_push_asks_for_an_unpark_once() {
    let mut queue = RunQueue::new();
    queue.push(1);
    queue.push(2);
    assert!(queue.take_unpark());
    assert!(!queue.take_unpark());
    queue.pop();
    assert!(!queue.take_unpark());
    queue.push(3);
    assert!(queue.take_unpark());
}

#[test]
fn poisoned_queue_gives_out_nothing_and_still_asks_for_an_unpark() {
    let mut queue = RunQueue::new();
    queue.push(1);
    assert!(queue.take_unpark());
    queue.poison();
    assert!(queue.is_poisoned());
    assert_eq!(queue.pop(), None);
    queue.push(2);
    assert!(queue.take_unpark());
    assert_eq!(queue.pop(), None);
}

#[test]
fn raw_waker_names_its_task() {
    let waker = get_raw_waker(42);
    assert_eq!(waker.data(), 42);
    assert!(waker.will_wake(&get_raw_waker(42)));
    assert!(!waker.will_wake(&get_raw_waker(43)));
}
