//! A minimal, single-threaded cooperative executor.
//!
//! A computation that implements [`Suspendable`] is polled repeatedly until it
//! reports completion; between attempts the driving loop parks on a one-slot
//! wake permit.  [`FutureExt`] extends the contract with a cooperative abort
//! request, and [`FutureAdapter`] lifts any plain computation into that
//! extended contract with a no-op abort.  Two worked examples exercise the
//! contract: a self-rescheduling counter and a sequence permuter that supports
//! genuine cancellation.

pub mod ext_fut;
pub mod runtime;
pub mod task;

pub use ext_fut::FutureAdapter;
pub use ext_fut::FutureExt;
pub use ext_fut::FutureWrapper;
pub use ext_fut::Poll;
pub use ext_fut::Suspendable;
pub use runtime::SimpleRuntime;
pub use runtime::SimpleWaker;
pub use task::count;
pub use task::permute;
pub use task::CounterFuture;
pub use task::PermuteFuture;
