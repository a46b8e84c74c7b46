use mini_rt::join::{register, register_clone};
use mini_rt::{Poll, ShareState, TimerShareState};

#[test]
fn first_waker_is_registered() {
    let mut slot: Option<u8> = None;
    assert_eq!(register(&mut slot, 1, true), None);
    assert_eq!(slot, Some(1));
}

#[test]
fn waker_of_the_same_task_is_kept() {
    let mut slot = Some(1u8);
    assert_eq!(register(&mut slot, 2, true), Some(2));
    assert_eq!(slot, Some(1));
}

#[test]
fn waker_of_another_task_is_replaced() {
    let mut slot = Some(1u8);
    assert_eq!(register(&mut slot, 2, false), Some(1));
    assert_eq!(slot, Some(2));
}

#[test]
fn waker_is_cloned_only_where_it_is_needed() {
    let mut slot: Option<String> = None;
    let same = |a: &String, b: &String| a.len() == b.len();
    assert_eq!(register_clone(&mut slot, &"ab".to_string(), same), None);
    assert_eq!(slot.as_deref(), Some("ab"));
    assert_eq!(register_clone(&mut slot, &"cd".to_string(), same), None);
    assert_eq!(slot.as_deref(), Some("ab"));
    assert_eq!(register_clone(&mut slot, &"xyz".to_string(), same), Some("ab".to_string()));
    assert_eq!(slot.as_deref(), Some("xyz"));
}

#[test]
fn share_state_hands_over_result_and_waker() {
    let mut state: ShareState<&str, u8> = ShareState::new();
    assert_eq!(state.poll_with(1, false), (Poll::Pending, None));
    assert_eq!(state.poll_with(2, false), (Poll::Pending, Some(1)));
    assert_eq!(state.complete("done"), Some(2));
    assert_eq!(state.waker, None);
    assert_eq!(state.poll_with(3, false), (Poll::Ready("done"), Some(3)));
    assert_eq!(state.result, None);
    assert_eq!(state.poll_with(4, false), (Poll::Pending, None));
    assert_eq!(state.waker, Some(4));
}

#[test]
fn share_state_poll_compares_wakers() {
    let same = |a: &u8, b: &u8| a == b;
    let mut state: ShareState<u32, u8> = ShareState::new();
    assert_eq!(state.poll(&5, same), (Poll::Pending, None));
    assert_eq!(state.poll(&5, same), (Poll::Pending, None));
    assert_eq!(state.poll(&6, same), (Poll::Pending, Some(5)));
    assert_eq!(state.complete(77), Some(6));
    assert_eq!(state.poll(&6, same), (Poll::Ready(77), None));
    assert_eq!(state.poll(&6, same), (Poll::Pending, None));
}

#[test]
fn completing_without_a_waker_wakes_nobody() {
    let mut state: ShareState<u32, u8> = ShareState::new();
    assert_eq!(state.complete(1), None);
    assert_eq!(state.result, Some(1));
}

#[test]
fn timer_state_stays_fired() {
    let mut state: TimerShareState<u8> = TimerShareState::new();
    assert!(!state.fired);
    assert_eq!(state.poll_with(1, false), (Poll::Pending, None));
    assert_eq!(state.poll_with(2, true), (Poll::Pending, Some(2)));
    assert_eq!(state.fire(), Some(1));
    assert!(state.fired);
    assert_eq!(state.poll_with(3, false), (Poll::Ready(()), Some(3)));
    assert_eq!(state.poll(&3, |a, b| a == b), (Poll::Ready(()), None));
    assert_eq!(state.waker, None);
    assert_eq!(state.fire(), None);
}

#[test]
fn timer_state_poll_compares_wakers() {
    let mut state: TimerShareState<u8> = TimerShareState::new();
    let same = |a: &u8, b: &u8| a == b;
    assert_eq!(state.poll(&1, same), (Poll::Pending, None));
    assert_eq!(state.poll(&1, same), (Poll::Pending, None));
    assert_eq!(state.poll(&2, same), (Poll::Pending, Some(1)));
    assert_eq!(state.waker, Some(2));
}
