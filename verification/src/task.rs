//! Worked-example computations that exercise the executor's contract.

pub mod counter;
pub mod permute;

pub use counter::count;
pub use counter::CounterFuture;
pub use permute::permute;
pub use permute::PermuteFuture;
