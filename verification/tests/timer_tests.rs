use mini_rt::heap::TimerHeap;
use mini_rt::{
    sleep, Duration, Event, Instant, InvalidDuration, Poll, TimerAction, TimerEntry, Timers, Wait,
    MAX_QUEUE_SIZE,
};
use std::cmp::Ordering;

fn at(secs: u64, nanos: u32) -> Instant {
    Instant::new(secs, nanos)
}

fn entry(secs: u64, id: u64) -> TimerEntry {
    TimerEntry { deadline: at(secs, 0), share_state: id }
}

fn fired(timers: &mut Timers<char>) -> (u64, Option<char>) {
    match timers.handle(Event::Timeout) {
        TimerAction::Fire { entry, waker } => (entry.share_state, waker),
        _ => panic!("no timer fired"),
    }
}

fn received(timers: &mut Timers<char>, entry: TimerEntry) {
    assert!(matches!(timers.handle(Event::Entry(entry)), TimerAction::Continue));
}

#[test]
fn instants_add_with_carry() {
    assert_eq!(at(1, 999_999_999).checked_add(Duration::new(2, 1)), Some(at(4, 0)));
    assert_eq!(at(1, 5).checked_add(Duration::new(2, 6)), Some(at(3, 11)));
    let last = at(u64::MAX - 1, 999_999_999);
    assert_eq!(at(u64::MAX - 1, 0).checked_add(Duration::new(0, 999_999_999)), Some(last));
}

#[test]
fn instants_past_the_end_are_not_reached() {
    let longest = Duration::new(u64::MAX, 999_999_999);
    assert_eq!(at(0, 0).checked_add(longest), None);
    assert_eq!(at(7, 3).checked_add(longest), None);
    assert_eq!(at(0, 0).checked_add(Duration::new(u64::MAX, 0)), None);
    assert_eq!(at(u64::MAX - 1, 1).checked_add(Duration::new(0, 999_999_999)), None);
    assert_eq!(at(0, 1).checked_add(Duration::new(u64::MAX, 999_999_999)), None);
}

#[test]
fn elapsed_time_does_not_go_below_nothing() {
    assert_eq!(at(5, 1).saturating_duration_since(at(3, 2)), Duration::new(1, 999_999_999));
    assert_eq!(at(5, 2).saturating_duration_since(at(3, 1)), Duration::new(2, 1));
    assert_eq!(at(3, 2).saturating_duration_since(at(3, 2)), Duration::new(0, 0));
    assert_eq!(at(3, 2).saturating_duration_since(at(9, 0)), Duration::new(0, 0));
}

#[test]
fn entries_are_ordered_by_deadline_alone() {
    let early = TimerEntry { deadline: at(1, 5), share_state: 9 };
    let late = TimerEntry { deadline: at(1, 6), share_state: 1 };
    let other = TimerEntry { deadline: at(1, 5), share_state: 4 };
    assert_eq!(early.cmp(&late), Ordering::Less);
    assert_eq!(late.cmp(&early), Ordering::Greater);
    assert_eq!(early.cmp(&other), Ordering::Equal);
    assert!(early == other);
    assert!(early != late);
    assert!(early < late);
    assert!(late >= early);
    assert_eq!(early.partial_cmp(&other), Some(Ordering::Equal));
    assert_eq!(late.partial_cmp(&early), Some(Ordering::Greater));
}

#[test]
fn heap_gives_out_the_earliest_first() {
    let mut heap = TimerHeap::new();
    assert!(heap.is_empty());
    assert!(heap.peek().is_none());
    let secs = [5, 3, 8, 1, 9, 2, 7, 7, 4, 6, 0, 3];
    for (id, s) in secs.iter().enumerate() {
        heap.push(entry(*s, id as u64));
    }
    assert!(!heap.is_empty());
    let mut out = Vec::new();
    let mut ids = Vec::new();
    while let Some(top) = heap.peek() {
        let popped = heap.pop().unwrap();
        assert!(popped == top);
        out.push(popped.deadline.secs);
        ids.push(popped.share_state);
    }
    assert_eq!(out, [0, 1, 2, 3, 3, 4, 5, 6, 7, 7, 8, 9]);
    ids.sort();
    assert_eq!(ids, (0..12).collect::<Vec<u64>>());
    assert!(heap.pop().is_none());
}

#[test]
fn timer_thread_waits_for_the_earliest_deadline() {
    let mut timers: Timers<char> = Timers::new();
    assert_eq!(timers.wait(at(0, 0)), Wait::Recv);
    let (_a, first) = sleep(&mut timers, at(10, 0), Duration::new(5, 0), true).unwrap();
    let (_b, second) = sleep(&mut timers, at(11, 0), Duration::new(2, 500), true).unwrap();
    assert_eq!(first.deadline, at(15, 0));
    assert_eq!(second.deadline, at(13, 500));
    assert_eq!(timers.wait(at(11, 0)), Wait::Recv);
    received(&mut timers, first);
    assert_eq!(timers.wait(at(11, 0)), Wait::RecvTimeout(Duration::new(4, 0)));
    received(&mut timers, second);
    assert_eq!(timers.wait(at(11, 0)), Wait::RecvTimeout(Duration::new(2, 500)));
    assert_eq!(timers.wait(at(20, 0)), Wait::RecvTimeout(Duration::new(0, 0)));
}

#[test]
fn timers_fire_in_the_order_of_their_deadlines() {
    let mut timers: Timers<char> = Timers::new();
    let mut sleeps = Vec::new();
    for secs in [4, 2, 3, 1] {
        let (sleep, entry) = sleep(&mut timers, at(0, 0), Duration::new(secs, 0), true).unwrap();
        received(&mut timers, entry);
        sleeps.push(sleep);
    }
    for id in [3, 1, 2, 0] {
        assert_eq!(fired(&mut timers), (id, None));
        let polled = sleeps[id as usize].poll_with(&mut timers, 'x', false);
        assert_eq!(polled, (Poll::Ready(()), Some('x')));
    }
    assert_eq!(timers.wait(at(9, 0)), Wait::Recv);
}

#[test]
fn pending_timer_fires_though_others_come_in() {
    let mut timers: Timers<char> = Timers::new();
    let (_last, entry) = sleep(&mut timers, at(0, 0), Duration::new(9, 0), true).unwrap();
    received(&mut timers, entry);
    for id in [1, 2, 3] {
        let (_other, entry) = sleep(&mut timers, at(0, 0), Duration::new(id, 0), true).unwrap();
        received(&mut timers, entry);
        assert_eq!(fired(&mut timers), (id, None));
    }
    assert_eq!(fired(&mut timers), (0, None));
    assert_eq!(timers.wait(at(9, 0)), Wait::Recv);
}

#[test]
fn sleeper_is_woken_and_then_ready_for_good() {
    let mut timers: Timers<char> = Timers::new();
    let (mut sleep, entry) = sleep(&mut timers, at(0, 0), Duration::new(1, 0), true).unwrap();
    assert_eq!(sleep.id(), 0);
    assert_eq!(sleep.poll_with(&mut timers, 'x', false), (Poll::Pending, None));
    received(&mut timers, entry);
    assert_eq!(sleep.poll(&mut timers, &'x', |a, b| a == b), (Poll::Pending, None));
    assert_eq!(sleep.poll(&mut timers, &'y', |a, b| a == b), (Poll::Pending, Some('x')));
    assert_eq!(fired(&mut timers), (0, Some('y')));
    assert_eq!(sleep.poll(&mut timers, &'z', |a, b| a == b), (Poll::Ready(()), None));
    assert_eq!(sleep.poll(&mut timers, &'z', |a, b| a == b), (Poll::Ready(()), None));
}

#[test]
fn abandoned_sleep_fires_all_the_same() {
    let mut timers: Timers<char> = Timers::new();
    let (mut sleep, entry) = sleep(&mut timers, at(0, 0), Duration::new(1, 0), true).unwrap();
    sleep.poll_with(&mut timers, 'x', false);
    sleep.abandon(&mut timers);
    received(&mut timers, entry);
    assert_eq!(fired(&mut timers), (0, Some('x')));
}

#[test]
fn sleep_can_be_abandoned_after_it_is_over() {
    let mut timers: Timers<char> = Timers::new();
    let (sleep, entry) = sleep(&mut timers, at(0, 0), Duration::new(0, 0), true).unwrap();
    received(&mut timers, entry);
    assert_eq!(fired(&mut timers), (0, None));
    sleep.abandon(&mut timers);
    assert_eq!(timers.wait(at(0, 0)), Wait::Recv);
}

#[test]
fn sleep_without_end_is_refused() {
    let mut timers: Timers<char> = Timers::new();
    assert!(timers.can_sleep());
    let refused = sleep(&mut timers, at(1, 0), Duration::new(u64::MAX, 0), true);
    assert!(matches!(refused, Err(InvalidDuration)));
    let (sleep, _) = sleep(&mut timers, at(1, 0), Duration::new(1, 0), true).unwrap();
    assert_eq!(sleep.id(), 0);
}

#[test]
fn longest_sleep_is_refused_at_every_reading() {
    let longest = Duration::new(u64::MAX, 999_999_999);
    for now in [at(0, 0), at(0, 1), at(1, 0), at(u64::MAX, 999_999_999)] {
        for in_range in [false, true] {
            let mut timers: Timers<char> = Timers::new();
            let refused = sleep(&mut timers, now, longest, in_range);
            assert!(matches!(refused, Err(InvalidDuration)));
        }
    }
}

#[test]
fn sleep_that_the_clock_cannot_count_is_refused() {
    let mut timers: Timers<char> = Timers::new();
    let refused = sleep(&mut timers, at(1, 0), Duration::new(1, 0), false);
    assert!(matches!(refused, Err(InvalidDuration)));
    assert_eq!(timers.wait(at(1, 0)), Wait::Recv);
}

#[test]
fn sleeper_needs_a_waker_until_the_right_one_is_on_record() {
    let mut timers: Timers<char> = Timers::new();
    let (mut sleep, entry) = sleep(&mut timers, at(0, 0), Duration::new(1, 0), true).unwrap();
    assert!(sleep.needs_waker(&timers, |_| true));
    sleep.poll_with(&mut timers, 'x', false);
    assert!(!sleep.needs_waker(&timers, |w| *w == 'x'));
    assert!(sleep.needs_waker(&timers, |w| *w == 'y'));
    received(&mut timers, entry);
    assert_eq!(fired(&mut timers), (0, Some('x')));
    assert!(!sleep.needs_waker(&timers, |_| false));
}

#[test]
fn timer_thread_ends_when_nothing_can_arrive() {
    let mut timers: Timers<char> = Timers::new();
    assert!(matches!(timers.handle(Event::Disconnected), TimerAction::Fail));
    let (_sleep, entry) = sleep(&mut timers, at(0, 0), Duration::new(1, 0), true).unwrap();
    received(&mut timers, entry);
    assert!(matches!(timers.handle(Event::Disconnected), TimerAction::Stop));
}

#[test]
fn channel_to_the_timer_thread_is_bounded() {
    assert_eq!(MAX_QUEUE_SIZE, 10_000);
}
