use std::sync::atomic::AtomicBool;
use std::sync::atomic::Ordering;
use std::sync::Arc;

use ext_fut::permute;
use ext_fut::FutureExt;
use ext_fut::Poll;
use ext_fut::SimpleRuntime;
use ext_fut::SimpleWaker;
use ext_fut::Suspendable;

#[test]
fn permute_end_to_end_example() {
    let mut fut = permute(&[1, 6, 4, 3, 2, 5], &[1, 2, 3, 4, 5, 6]).unwrap();
    let mut waker = SimpleWaker::new();
    assert!(matches!(fut.poll(&mut waker), Poll::Pending));
    assert_eq!(fut.current, vec![1, 2, 4, 3, 6, 5]);
    assert_eq!(fut.steps, 1);
    let mut waker = SimpleWaker::new();
    assert!(matches!(fut.poll(&mut waker), Poll::Pending));
    assert_eq!(fut.current, vec![1, 2, 3, 4, 6, 5]);
    assert_eq!(fut.steps, 2);
    let mut waker = SimpleWaker::new();
    assert_eq!(fut.poll(&mut waker), Poll::Ready(3));
    assert_eq!(fut.current, vec![1, 2, 3, 4, 5, 6]);
}

#[test]
fn permute_runs_via_executor() {
    let abort = Arc::new(AtomicBool::new(false));
    let runtime = SimpleRuntime::new(&abort);
    let mut fut = permute(&[1, 6, 4, 3, 2, 5], &[1, 2, 3, 4, 5, 6]).unwrap();
    let permutations = runtime.block_on(&mut fut);
    assert_eq!(permutations, 3);
    assert_eq!(fut.current, fut.target);
}

#[test]
fn permute_step_count_stays_under_length() {
    let abort = Arc::new(AtomicBool::new(false));
    let runtime = SimpleRuntime::new(&abort);
    let mut fut = permute(&[5, 4, 3, 2, 1], &[1, 2, 3, 4, 5]).unwrap();
    let steps = runtime.block_on(&mut fut);
    assert_eq!(steps, 2);
    assert!(steps <= 4);
    assert_eq!(fut.current, vec![1, 2, 3, 4, 5]);
}

#[test]
fn permute_already_at_target() {
    let mut fut = permute(&[7, 8, 9], &[7, 8, 9]).unwrap();
    let mut waker = SimpleWaker::new();
    assert_eq!(fut.poll(&mut waker), Poll::Ready(0));
    assert_eq!(fut.current, vec![7, 8, 9]);
}

#[test]
fn permute_empty_sequences() {
    let mut fut = permute(&[], &[]).unwrap();
    let mut waker = SimpleWaker::new();
    assert_eq!(fut.poll(&mut waker), Poll::Ready(0));
}

#[test]
fn permute_with_duplicates() {
    let abort = Arc::new(AtomicBool::new(false));
    let runtime = SimpleRuntime::new(&abort);
    let mut fut = permute(&[2, 1, 1, 2], &[1, 2, 2, 1]).unwrap();
    let steps = runtime.block_on(&mut fut);
    assert_eq!(steps, 2);
    assert_eq!(fut.current, vec![1, 2, 2, 1]);
}

#[test]
fn construction_fails_on_length_mismatch() {
    assert!(permute(&[1, 2, 3], &[1, 2]).is_none());
}

#[test]
fn construction_fails_on_element_mismatch() {
    assert!(permute(&[1, 2, 3], &[1, 2, 4]).is_none());
}

#[test]
fn construction_fails_on_multiplicity_mismatch() {
    assert!(permute(&[1, 1, 2], &[1, 2, 2]).is_none());
}

#[test]
fn abort_freezes_step_count() {
    let mut fut = permute(&[1, 6, 4, 3, 2, 5], &[1, 2, 3, 4, 5, 6]).unwrap();
    let mut waker = SimpleWaker::new();
    assert!(matches!(fut.poll(&mut waker), Poll::Pending));
    assert_eq!(fut.steps, 1);
    fut.abort();
    let mut waker = SimpleWaker::new();
    // the next poll skips the stepping logic and reports the frozen count
    assert_eq!(fut.poll(&mut waker), Poll::Ready(1));
    assert_eq!(fut.current, vec![1, 2, 4, 3, 6, 5]);
    assert_eq!(fut.steps, 1);
}

#[test]
fn abort_before_first_poll() {
    let mut fut = permute(&[3, 1, 2], &[1, 2, 3]).unwrap();
    fut.abort();
    let mut waker = SimpleWaker::new();
    assert_eq!(fut.poll(&mut waker), Poll::Ready(0));
    assert_eq!(fut.current, vec![3, 1, 2]);
}

#[test]
fn abort_flag_cancels_run_through_executor() {
    let abort = Arc::new(AtomicBool::new(false));
    let runtime = SimpleRuntime::new(&abort);
    abort.store(true, Ordering::Relaxed);
    let mut fut = permute(&[3, 1, 2], &[1, 2, 3]).unwrap();
    // the executor forwards the abort before the first poll, which then
    // completes at once with no step taken
    assert_eq!(runtime.block_on(&mut fut), 0);
    assert_eq!(fut.current, vec![3, 1, 2]);
}
