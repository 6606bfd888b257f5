//! A vector-clock library for happens-before reasoning.
//!
//! A vector clock is logically a total function from a vector index (one
//! per participating thread) to a non-negative timestamp, compared under
//! the pointwise partial order. Two clocks that are incomparable describe
//! concurrent histories; ordered clocks describe causally related ones.

pub mod clock;
mod index;
pub mod order;
pub mod storage;

pub use clock::VClock;
pub use index::VectorIdx;
pub use storage::VTimestamp;
