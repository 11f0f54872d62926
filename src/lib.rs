//! Collatz step counts and the bookkeeping core of a fixed-size worker pool.

pub mod collatz;
pub mod pool;
pub mod report;
