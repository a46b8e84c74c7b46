use mini_rt::{
    block_on as start, spawn as start_task, Action, BlockOn, Executor, JoinHandle, Outcome,
    Poll as JoinPoll, RawWaker,
};
use std::future::{poll_fn, Future};
use std::pin::Pin;
use std::sync::{Arc, Mutex};
use std::task::{Context, Poll, Wake, Waker};

type Fut<T> = Pin<Box<dyn Future<Output = T> + Send>>;
type Rt<T> = Executor<Fut<T>, T, Waker>;

/// An executor and the loop that drives it on the current thread.
struct Driver<T> {
    rt: Arc<Mutex<Rt<T>>>,
}

impl<T> Clone for Driver<T> {
    fn clone(&self) -> Self {
        Driver { rt: self.rt.clone() }
    }
}

struct TaskWaker<T> {
    rt: Arc<Mutex<Rt<T>>>,
    raw: Mutex<Option<RawWaker>>,
}

impl<T: Send + 'static> Wake for TaskWaker<T> {
    fn wake(self: Arc<Self>) {
        self.wake_by_ref();
    }

    fn wake_by_ref(self: &Arc<Self>) {
        let raw = self.raw.lock().unwrap();
        self.rt.lock().unwrap().wake_by_ref(raw.as_ref().unwrap());
    }
}

impl<T> Drop for TaskWaker<T> {
    fn drop(&mut self) {
        let raw = self.raw.lock().unwrap().take().unwrap();
        let released = self.rt.lock().unwrap().drop_waker(raw);
        drop(released);
    }
}

struct Join<T> {
    rt: Arc<Mutex<Rt<T>>>,
    handle: JoinHandle,
}

impl<T: Send + 'static> Future for Join<T> {
    type Output = T;

    fn poll(self: Pin<&mut Self>, cx: &mut Context<'_>) -> Poll<T> {
        let this = self.get_mut();
        let (polled, unused) = {
            let mut rt = this.rt.lock().unwrap();
            this.handle.poll(&mut rt, cx.waker(), |a: &Waker, b: &Waker| a.will_wake(b))
        };
        drop(unused);
        match polled {
            JoinPoll::Ready(result) => Poll::Ready(result),
            JoinPoll::Pending => Poll::Pending,
        }
    }
}

impl<T: Send + 'static> Driver<T> {
    fn new() -> Self {
        Driver { rt: Arc::new(Mutex::new(Executor::new())) }
    }

    fn spawn(&self, fut: impl Future<Output = T> + Send + 'static) -> Join<T> {
        let (handle, rejected) = start_task(&mut *self.rt.lock().unwrap(), Box::pin(fut) as Fut<T>);
        assert!(rejected.is_none());
        Join { rt: self.rt.clone(), handle }
    }

    /// Runs until `fut` finishes; `parked` stands for what other threads do
    /// while this one is parked.
    fn block_on_with(
        &self,
        fut: impl Future<Output = T> + Send + 'static,
        mut parked: impl FnMut(),
    ) -> T {
        let (main, rejected): (BlockOn, Option<Fut<T>>) =
            start(&mut *self.rt.lock().unwrap(), Box::pin(fut) as Fut<T>);
        assert!(rejected.is_none());
        loop {
            let action = main.step(&mut *self.rt.lock().unwrap());
            match action {
                Action::Poll { task, mut fut, waker: raw } => {
                    let waker = Waker::from(Arc::new(TaskWaker {
                        rt: self.rt.clone(),
                        raw: Mutex::new(Some(raw)),
                    }));
                    let outcome = match fut.as_mut().poll(&mut Context::from_waker(&waker)) {
                        Poll::Pending => Outcome::Pending(fut),
                        Poll::Ready(result) => Outcome::Ready(result),
                    };
                    let (joiner, released) = self.rt.lock().unwrap().polled(task, outcome);
                    if let Some(joiner) = joiner {
                        joiner.wake_by_ref();
                    }
                    drop(released);
                }
                Action::Park => {
                    parked();
                    assert!(self.rt.lock().unwrap().take_unpark(), "nobody wakes this thread");
                }
                Action::Return(result) => return result,
            }
        }
    }

    fn block_on(&self, fut: impl Future<Output = T> + Send + 'static) -> T {
        self.block_on_with(fut, || panic!("nobody wakes this thread"))
    }
}

struct NoopFuture;

impl Future for NoopFuture {
    type Output = bool;

    fn poll(self: Pin<&mut Self>, _cx: &mut Context<'_>) -> Poll<Self::Output> {
        Poll::Ready(true)
    }
}

struct CounterFuture {
    count: i32,
}

impl Future for CounterFuture {
    type Output = bool;

    fn poll(mut self: Pin<&mut Self>, cx: &mut Context<'_>) -> Poll<Self::Output> {
        if self.count > 0 {
            self.count -= 1;
            cx.waker().wake_by_ref();
            return Poll::Pending;
        }
        Poll::Ready(true)
    }
}

struct ShareData {
    data: bool,
    waker: Option<Waker>,
}

struct StashWakerFuture {
    share_data: Arc<Mutex<ShareData>>,
}

impl Future for StashWakerFuture {
    type Output = bool;

    fn poll(self: Pin<&mut Self>, cx: &mut Context<'_>) -> Poll<Self::Output> {
        let mut data_guard = self.share_data.lock().unwrap();

        if !data_guard.data {
            match data_guard.waker.as_ref() {
                Some(old_waker) if old_waker.will_wake(cx.waker()) => {}
                _ => {
                    data_guard.waker.replace(cx.waker().clone());
                }
            };
            return Poll::Pending;
        }

        Poll::Ready(true)
    }
}

#[test]
fn test_immediate_return_future() {
    let fut = NoopFuture;

    assert!(Driver::new().block_on(fut));
}

#[test]
fn test_yield_n_times() {
    let fut = CounterFuture { count: 5 };
    assert!(Driver::new().block_on(fut));
}

#[test]
fn test_wake_from_other_thread() {
    let driver = Driver::new();
    let share_state: Arc<Mutex<ShareData>> =
        Arc::new(Mutex::new(ShareData { data: false, waker: None }));
    let cloned = share_state.clone();

    let fut = StashWakerFuture { share_data: share_state };
    // Spawn future and let it store the waker
    let join_handle = driver.spawn(fut);

    // Ensure the spawned future has driven to completion
    let mut parks = 0;
    let done = driver.block_on_with(async { join_handle.await }, || {
        parks += 1;
        let waker = {
            let mut data = cloned.lock().unwrap();
            data.data = true;
            data.waker.take().expect("Waker should have set")
        };
        waker.wake_by_ref();
    });
    assert!(done);
    assert_eq!(parks, 1);
}

#[test]
fn test_ping_pong() {
    let driver = Driver::new();
    let inner = driver.clone();
    driver.block_on(async move {
        let shared_data: Arc<Mutex<ShareData>> =
            Arc::new(Mutex::new(ShareData { data: false, waker: None }));
        let clone1 = shared_data.clone();
        let clone2 = shared_data.clone();

        let output: Arc<Mutex<Vec<String>>> = Arc::new(Mutex::new(Vec::<String>::new()));
        let out_clone1 = output.clone();
        let out_clone2 = output.clone();

        let fut1 = inner.spawn(async move {
            let mut count = 0;
            while count < 2 {
                poll_fn(|cx| {
                    let mut guard = clone1.lock().unwrap();

                    if !guard.data {
                        guard.data = true;
                        let waker = guard.waker.take();

                        drop(guard);

                        if let Some(waker) = waker {
                            waker.wake();
                        }
                        return Poll::Ready(());
                    } else {
                        guard.waker.replace(cx.waker().clone());
                    }

                    Poll::Pending
                })
                .await;
                count += 1;
                let mut guard = out_clone1.lock().unwrap();
                guard.push("ping".to_string());
            }
        });
        let fut2 = inner.spawn(async move {
            let mut count = 0;
            while count < 2 {
                poll_fn(|cx| {
                    let mut guard = clone2.lock().unwrap();

                    if guard.data {
                        guard.data = false;
                        let waker = guard.waker.take();

                        drop(guard);

                        if let Some(waker) = waker {
                            waker.wake();
                        }
                        return Poll::Ready(());
                    } else {
                        guard.waker.replace(cx.waker().clone());
                    }
                    Poll::Pending
                })
                .await;
                count += 1;
                let mut guard = out_clone2.lock().unwrap();
                guard.push("pong".to_string());
            }
        });

        let _ = fut1.await;
        let _ = fut2.await;

        let output_guard = output.lock().unwrap();
        println!("{:?}", output_guard);
        assert_eq!(*output_guard, ["ping", "pong", "ping", "pong"]);
    });
}

#[test]
fn tasks_left_over_run_in_the_next_block_on() {
    let driver = Driver::new();
    let seen: Arc<Mutex<Vec<u32>>> = Arc::new(Mutex::new(Vec::new()));
    let first = seen.clone();
    let _left = driver.spawn(async move {
        first.lock().unwrap().push(1);
        1
    });
    let second = seen.clone();
    let result = driver.block_on(async move {
        second.lock().unwrap().push(2);
        2
    });
    assert_eq!(result, 2);
    assert_eq!(*seen.lock().unwrap(), [1, 2]);
}
