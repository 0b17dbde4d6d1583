//! The decisions of a benchmark of an accounts storage engine, kept apart
//! from the engine, the clock and the profiler that carry them out: how
//! large the storage regions are, what is stored and in which order, which
//! reads and writes a workload holds and what each read must find, how a
//! timed region keeps step with its profiler, and in which order a sweep
//! goes through its entries. Each is stated over a mathematical model and
//! proved against it.

pub mod config;
pub mod layout;
pub mod population;
pub mod slots;
pub mod plan;
pub mod session;
pub mod workload;
pub mod shuffle;
pub mod ledger;
pub mod expectation;
pub mod replay;
pub mod trials;
pub mod profiler;
pub mod sweep;

mod entropy;
