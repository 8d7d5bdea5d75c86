use std::sync::atomic::AtomicBool;
use std::sync::atomic::Ordering;
use std::sync::Arc;

use ext_fut::count;
use ext_fut::FutureAdapter;
use ext_fut::FutureExt;
use ext_fut::Poll;
use ext_fut::SimpleRuntime;
use ext_fut::SimpleWaker;
use ext_fut::Suspendable;

#[test]
fn counter_runs_to_max() {
    let abort = Arc::new(AtomicBool::new(false));
    let runtime = SimpleRuntime::new(&abort);
    let mut fut = count(5).adapt();
    let res = runtime.block_on(&mut fut);
    assert_eq!(res, 5);
    // one increment per poll: the run took exactly five poll attempts
    assert_eq!(fut.inner.counter, 5);
}

#[test]
fn counter_single_step() {
    let abort = Arc::new(AtomicBool::new(false));
    let runtime = SimpleRuntime::new(&abort);
    let mut fut = count(1).adapt();
    assert_eq!(runtime.block_on(&mut fut), 1);
    assert_eq!(fut.inner.counter, 1);
}

#[test]
fn counter_ignores_abort_flag_set_before_run() {
    let abort = Arc::new(AtomicBool::new(true));
    let runtime = SimpleRuntime::new(&abort);
    let mut fut = count(5).adapt();
    let res = runtime.block_on(&mut fut);
    assert_eq!(res, 5);
    assert_eq!(fut.inner.counter, 5);
}

#[test]
fn counter_ignores_direct_abort() {
    let abort = Arc::new(AtomicBool::new(false));
    let runtime = SimpleRuntime::new(&abort);
    let mut fut = count(3).adapt();
    fut.abort();
    fut.abort();
    assert_eq!(runtime.block_on(&mut fut), 3);
}

#[test]
fn counter_polls_report_progress() {
    let mut fut = count(2);
    let mut waker = SimpleWaker::new();
    assert!(matches!(fut.poll(&mut waker), Poll::Pending));
    assert_eq!(fut.counter, 1);
    let mut waker2 = SimpleWaker::new();
    assert_eq!(fut.poll(&mut waker2), Poll::Ready(2));
    assert_eq!(fut.counter, 2);
}

#[test]
fn wake_before_park_is_not_lost() {
    let mut waker = SimpleWaker::new();
    waker.wake();
    waker.park();
}

#[test]
fn repeated_wakes_are_one_permit() {
    let mut waker = SimpleWaker::new();
    waker.wake();
    waker.wake();
    waker.wake();
    waker.park();
}

#[test]
fn runtime_is_reusable_across_independent_runs() {
    let abort = Arc::new(AtomicBool::new(false));
    let runtime = SimpleRuntime::new(&abort);
    let mut first = count(3).adapt();
    let mut second = count(7).adapt();
    assert_eq!(runtime.block_on(&mut first), 3);
    assert_eq!(runtime.block_on(&mut second), 7);
}

#[test]
fn abort_flag_set_during_run_is_seen_between_polls() {
    let abort = Arc::new(AtomicBool::new(false));
    let runtime = SimpleRuntime::new(&abort);
    // flip the flag mid-run: the counter still runs to full completion
    abort.store(true, Ordering::Relaxed);
    let mut fut = count(4).adapt();
    assert_eq!(runtime.block_on(&mut fut), 4);
}
