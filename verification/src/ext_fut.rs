//! The suspendable-computation contract, its cancellable extension, and the
//! adapter that lifts any plain computation into the extended contract.

use vstd::prelude::*;

use crate::runtime::SimpleWaker;

verus! {

/// What one poll attempt reports: completion with a value, or not yet.
#[derive(Debug, PartialEq, Eq, Structural)]
pub enum Poll<T> {
    Ready(T),
    Pending,
}

/// A unit of work that is polled repeatedly until it reports completion.
///
/// The specification surface is a small state-machine model: `wf` is the
/// state invariant, `done` marks the terminal state, `value` is the output
/// once the terminal state is reached, and `polls_to` is the (deterministic)
/// transition that one poll performs.
///
/// A completed computation must never be polled again; the `requires` clause
/// of `poll` enforces that.  When a poll leaves the computation pending it
/// must have requested a wake, since in a single-threaded run nothing else
/// could ever resume the driving loop.
pub trait Suspendable: Sized {
    type Output;

    /// State invariant, established by construction, preserved by every poll.
    spec fn wf(&self) -> bool;

    /// Whether the terminal state has been reached.
    spec fn done(&self) -> bool;

    /// The output reported when the terminal state is reached.
    spec fn value(&self) -> Self::Output;

    /// An upper bound on the poll attempts still needed to reach the
    /// terminal state.  Every poll that stays pending strictly lowers it,
    /// so a computation cannot stall the driving loop forever.
    spec fn remaining(&self) -> nat;

    /// The transition relation of one poll attempt.
    spec fn polls_to(&self, next: Self) -> bool;

    fn poll(&mut self, waker: &mut SimpleWaker) -> (r: Poll<Self::Output>)
        requires
            old(self).wf(),
            !old(self).done(),
        ensures
            final(self).wf(),
            old(self).polls_to(*final(self)),
            (match r {
                Poll::Ready(v) => final(self).done() && v == final(self).value(),
                Poll::Pending => !final(self).done(),
            }),
            !final(self).done() ==> final(waker).woken(),
            !final(self).done() ==> final(self).remaining() < old(self).remaining(),
            r is Ready ==> *final(waker) == *old(waker),
    ;
}

/// A suspendable computation extended with a cooperative abort request.
///
/// `abort` is a signal, not a guarantee of termination: it never completes
/// the computation by itself, and a computation may ignore it entirely.
/// `aborts_to` is the (deterministic) effect one abort request has on the
/// state; it leaves the terminal flag untouched, so an abort is observed
/// only by the *next* poll.
pub trait FutureExt: Suspendable {
    /// The transition relation of one abort request.
    spec fn aborts_to(&self, next: Self) -> bool;

    fn abort(&mut self)
        requires
            old(self).wf(),
        ensures
            final(self).wf(),
            old(self).aborts_to(*final(self)),
            final(self).done() == old(self).done(),
            final(self).value() == old(self).value(),
            final(self).remaining() <= old(self).remaining(),
    ;
}

/// Wraps a plain suspendable computation so that it satisfies the
/// cancellable contract, with an abort that is permanently a no-op.
pub struct FutureWrapper<F> {
    pub inner: F,
}

/// Lifts any suspendable computation into the cancellable contract.
///
/// The wrapped computation polls exactly as the original does, but its
/// `abort` does nothing: adapted computations type-check as cancellable yet
/// are not, by design.
pub trait FutureAdapter: Suspendable {
    fn adapt(self) -> (r: FutureWrapper<Self>)
        ensures
            r.inner == self,
    ;
}

impl<F: Suspendable> FutureAdapter for F {
    fn adapt(self) -> (r: FutureWrapper<F>) {
        FutureWrapper { inner: self }
    }
}

impl<F: Suspendable> Suspendable for FutureWrapper<F> {
    type Output = F::Output;

    open spec fn wf(&self) -> bool {
        self.inner.wf()
    }

    open spec fn done(&self) -> bool {
        self.inner.done()
    }

    open spec fn value(&self) -> F::Output {
        self.inner.value()
    }

    open spec fn remaining(&self) -> nat {
        self.inner.remaining()
    }

    open spec fn polls_to(&self, next: Self) -> bool {
        self.inner.polls_to(next.inner)
    }

    fn poll(&mut self, waker: &mut SimpleWaker) -> (r: Poll<F::Output>) {
        self.inner.poll(waker)
    }
}

impl<F: Suspendable> FutureExt for FutureWrapper<F> {
    open spec fn aborts_to(&self, next: Self) -> bool {
        next == *self
    }

    fn abort(&mut self) {
        // no-op
    }
}

/// Whether a run of `n` poll or abort transitions leads from state `a` to
/// state `b`.  This is what a driving loop does to a computation: its final
/// state is reachable from the initial one through the computation's own
/// transition relations, and nothing else.
pub open spec fn evolves_to<F: FutureExt>(a: F, b: F, n: nat) -> bool
    decreases n,
{
    if n == 0 {
        a == b
    } else {
        exists|m: F| (a.polls_to(m) || a.aborts_to(m)) && evolves_to(m, b, (n - 1) as nat)
    }
}

/// A run extended by one more poll or abort transition is still a run.
pub proof fn lemma_evolves_append<F: FutureExt>(a: F, b: F, c: F, n: nat)
    requires
        evolves_to(a, b, n),
        b.polls_to(c) || b.aborts_to(c),
    ensures
        evolves_to(a, c, n + 1),
    decreases n,
{
    if n == 0 {
        assert(evolves_to(c, c, 0));
        assert((a.polls_to(c) || a.aborts_to(c)) && evolves_to(c, c, 0));
    } else {
        let m = choose|m: F| (a.polls_to(m) || a.aborts_to(m)) && evolves_to(m, b, (n - 1) as nat);
        lemma_evolves_append(m, b, c, (n - 1) as nat);
        assert((a.polls_to(m) || a.aborts_to(m)) && evolves_to(m, c, n));
    }
}

/// An adapted computation is not cancellable: its abort request leaves the
/// state exactly as it was.
pub proof fn adapted_abort_is_noop<F: Suspendable>(w: FutureWrapper<F>, next: FutureWrapper<F>)
    requires
        w.aborts_to(next),
    ensures
        next == w,
{
}

} // verus!
