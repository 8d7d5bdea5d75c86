//! The blocking executor: a poll/park loop over a one-slot wake permit,
//! with an externally shared abort flag checked before every poll.

use core::sync::atomic::AtomicBool;
use core::sync::atomic::Ordering;
use std::sync::Arc;
use vstd::prelude::*;

use crate::ext_fut::evolves_to;
use crate::ext_fut::lemma_evolves_append;
use crate::ext_fut::FutureExt;
use crate::ext_fut::Poll;

verus! {

/// The wake handle for one poll attempt: a single-slot pending-wake permit.
///
/// `wake` deposits the permit; it is idempotent and is never lost, however
/// often it is fired and whether or not the driving loop has parked yet.
/// `park` consumes the permit.  The executor runs everything on the one
/// calling thread, so a park without a pending permit could never return;
/// its `requires` clause rules that out, which makes the driving loop free
/// of lost-wakeup deadlocks by construction.
pub struct SimpleWaker {
    woken: bool,
}

impl SimpleWaker {
    /// Whether a wake permit is pending.
    pub closed spec fn woken(&self) -> bool {
        self.woken
    }

    pub fn new() -> (w: SimpleWaker)
        ensures
            !w.woken(),
    {
        SimpleWaker { woken: false }
    }

    /// Deposit the wake permit.  A wake fired before the corresponding park
    /// still leaves the permit pending, so that park returns at once: a
    /// wake is never lost.
    pub fn wake(&mut self)
        ensures
            final(self).woken(),
    {
        self.woken = true;
    }

    /// Suspend until the wake permit is pending, then consume it.  With a
    /// single thread of control the permit can only have been deposited
    /// already, so the call returns immediately.
    pub fn park(&mut self)
        requires
            old(self).woken(),
        ensures
            !final(self).woken(),
    {
        self.woken = false;
    }
}

/// Drives one cancellable computation at a time to completion, checking a
/// shared abort flag before every poll attempt and forwarding it to the
/// computation.
pub struct SimpleRuntime {
    abort: Arc<AtomicBool>,
}

/// Relies on `Arc::clone`: the clone is another handle to the same shared
/// allocation, so it is the same value, not a copy of the flag's state.
#[verifier::external_body]
fn clone_abort_flag(abort: &Arc<AtomicBool>) -> (r: Arc<AtomicBool>)
    ensures
        r == *abort,
{
    Arc::clone(abort)
}

impl SimpleRuntime {
    /// The shared abort flag this executor reads before every poll attempt.
    pub closed spec fn abort_handle(&self) -> Arc<AtomicBool> {
        self.abort
    }

    /// Build an executor bound to the given shared abort flag: the runtime
    /// holds a handle to the very flag the caller passed, so a later store
    /// through any other handle to it is what the poll loop observes.
    pub fn new(abort: &Arc<AtomicBool>) -> (rt: SimpleRuntime)
        ensures
            rt.abort_handle() == *abort,
    {
        SimpleRuntime { abort: clone_abort_flag(abort) }
    }

    /// Repeatedly poll `f` until it completes, parking between attempts on
    /// the wake handle built for that attempt.  Whenever the shared abort
    /// flag is observed set, the computation's abort is invoked before the
    /// poll; that is a signal only, so the loop still runs until `f` itself
    /// reports completion.  The final state is reachable from the initial
    /// one through the computation's own poll and abort transitions: the
    /// loop drives the computation and never touches it otherwise.
    pub fn block_on<F: FutureExt>(&self, f: &mut F) -> (r: F::Output)
        requires
            old(f).wf(),
            !old(f).done(),
        ensures
            final(f).wf(),
            final(f).done(),
            r == final(f).value(),
            exists|n: nat| evolves_to(*old(f), *final(f), n),
    {
        proof {
            assert(evolves_to(*f, *f, 0));
        }
        loop
            invariant
                f.wf(),
                !f.done(),
                exists|n: nat| evolves_to(*old(f), *f, n),
            decreases f.remaining(),
        {
            if self.abort.load(Ordering::Relaxed) {
                let ghost pre = *f;
                f.abort();
                proof {
                    let n = choose|n: nat| evolves_to(*old(f), pre, n);
                    lemma_evolves_append(*old(f), pre, *f, n);
                }
            }
            let ghost mid = *f;
            let mut waker = SimpleWaker::new();
            let polled = f.poll(&mut waker);
            proof {
                let n = choose|n: nat| evolves_to(*old(f), mid, n);
                lemma_evolves_append(*old(f), mid, *f, n);
            }
            match polled {
                Poll::Ready(val) => {
                    return val;
                }
                Poll::Pending => {
                    waker.park();
                }
            }
        }
    }
}

} // verus!
