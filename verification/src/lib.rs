//! A bounded worker pool, verified as a state model.
//!
//! The pool owns a fixed set of workers and the producing end of an unbounded
//! job channel.  Callers submit jobs; workers compete to dequeue them, each
//! job being delivered to exactly one worker exactly once; shutdown closes
//! the channel before joining the workers, so that every queued job drains
//! and every worker exits.  The `pool` module states and proves these
//! guarantees over an explicit model of the protocol; the `http` module
//! holds the pure part of a serving front end — the routing decision for
//! each request line and the assembly of the response.

pub mod http;
pub mod pool;
