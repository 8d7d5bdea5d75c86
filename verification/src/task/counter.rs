//! A pure, self-rescheduling counting state machine.
//!
//! Each poll increments the counter once; the run completes when the counter
//! reaches the ceiling, so a run started at zero is polled exactly `max`
//! times and returns exactly `max`.  The counter does not opt in to
//! cancellation: driven through the adapter, an abort request has no effect
//! on it, and it always runs to full completion.

use vstd::prelude::*;

use crate::ext_fut::evolves_to;
use crate::ext_fut::FutureExt;
use crate::ext_fut::FutureWrapper;
use crate::ext_fut::Poll;
use crate::ext_fut::Suspendable;
use crate::runtime::SimpleWaker;

verus! {

pub struct CounterFuture {
    pub counter: u64,
    pub max: u64,
}

impl Suspendable for CounterFuture {
    type Output = u64;

    open spec fn wf(&self) -> bool {
        self.counter <= self.max || (self.max == 0 && self.counter == 1)
    }

    open spec fn done(&self) -> bool {
        self.counter >= self.max && self.counter > 0
    }

    open spec fn value(&self) -> u64 {
        self.counter
    }

    open spec fn remaining(&self) -> nat {
        if self.counter <= self.max {
            (self.max - self.counter) as nat
        } else {
            0
        }
    }

    open spec fn polls_to(&self, next: Self) -> bool {
        next.max == self.max && next.counter == self.counter + 1
    }

    fn poll(&mut self, waker: &mut SimpleWaker) -> (r: Poll<u64>) {
        self.counter = self.counter + 1;
        if self.counter >= self.max {
            Poll::Ready(self.counter)
        } else {
            waker.wake();
            Poll::Pending
        }
    }
}

pub fn count(max: u64) -> (c: CounterFuture)
    ensures
        c.counter == 0,
        c.max == max,
        c.wf(),
        !c.done(),
{
    CounterFuture { counter: 0, max }
}

/// Counter determinism: whenever a counter with a positive ceiling reaches
/// its terminal state, its value is exactly `max` — and since every poll
/// raises the counter by exactly one from zero, the run took exactly `max`
/// poll attempts.
pub proof fn counter_completion_exact(c: CounterFuture)
    requires
        c.wf(),
        c.done(),
        c.max > 0,
    ensures
        c.value() == c.max,
        c.counter == c.max,
{
}

/// Each poll attempt advances the counter by exactly one, so the counter
/// field records the number of polls a run starting from zero has taken.
pub proof fn counter_poll_counts_attempts(c: CounterFuture, next: CounterFuture)
    requires
        c.polls_to(next),
    ensures
        next.counter == c.counter + 1,
{
}

/// Over any run of polls and abort requests, the ceiling never changes and
/// the counter never decreases.
pub proof fn counter_run_monotone(
    a: FutureWrapper<CounterFuture>,
    b: FutureWrapper<CounterFuture>,
    n: nat,
)
    requires
        evolves_to(a, b, n),
    ensures
        b.inner.max == a.inner.max,
        b.inner.counter >= a.inner.counter,
    decreases n,
{
    if n > 0 {
        let m = choose|m: FutureWrapper<CounterFuture>|
            (a.polls_to(m) || a.aborts_to(m)) && evolves_to(m, b, (n - 1) as nat);
        counter_run_monotone(m, b, (n - 1) as nat);
    }
}

/// Counter determinism, end to end: a run started at zero that reaches the
/// terminal state — with or without abort requests along the way — returns
/// exactly `max`, and the counter shows it was polled exactly `max` times.
pub proof fn counter_run_returns_max(
    start: FutureWrapper<CounterFuture>,
    end: FutureWrapper<CounterFuture>,
    n: nat,
)
    requires
        start.inner.counter == 0,
        start.inner.max > 0,
        evolves_to(start, end, n),
        end.wf(),
        end.done(),
    ensures
        end.value() == start.inner.max,
        end.inner.counter == start.inner.max,
{
    counter_run_monotone(start, end, n);
    counter_completion_exact(end.inner);
}

/// A counter ignores abort: the counter only runs adapted, and an abort
/// request to the adapter leaves the state — counter, ceiling, and with
/// them the eventual value and number of poll attempts — exactly as it was.
pub proof fn counter_ignores_abort(
    w: FutureWrapper<CounterFuture>,
    next: FutureWrapper<CounterFuture>,
)
    requires
        w.aborts_to(next),
    ensures
        next == w,
        next.inner.counter == w.inner.counter,
        next.value() == w.value(),
{
}

} // verus!
