//! Resource limits of one script run.

use vstd::prelude::*;

verus! {

/// Nanoseconds in a second.
pub const NANOS_PER_SEC: u128 = 1_000_000_000;

/// Resource limits for one script run. A script that exceeds one of them is ended with an
/// error that its author can read.
#[derive(Debug, Clone, Copy)]
pub struct Limits {
    /// How many tool calls a script may make.
    pub max_calls: usize,
    /// How long the whole run may take, in nanoseconds.
    pub wall_clock: u128,
    /// How many tool calls may run at one time.
    pub max_parallel: usize,
    /// How many promise jobs the engine may run.
    pub max_promise_jobs: usize,
    /// How many loop iterations the engine allows.
    pub loop_iteration_limit: u64,
    /// How deep calls may nest in the engine.
    pub recursion_limit: usize,
}

impl Default for Limits {
    fn default() -> (limits: Self)
        ensures
            limits == (Limits {
                max_calls: 64,
                wall_clock: (60 * NANOS_PER_SEC) as u128,
                max_parallel: 8,
                max_promise_jobs: 100_000,
                loop_iteration_limit: 10_000_000,
                recursion_limit: 400,
            }),
    {
        Limits {
            max_calls: 64,
            wall_clock: 60 * NANOS_PER_SEC,
            max_parallel: 8,
            max_promise_jobs: 100_000,
            loop_iteration_limit: 10_000_000,
            recursion_limit: 400,
        }
    }
}

/// The smallest limit that lets work go on: zero counts as one.
pub open spec fn at_least_one(n: usize) -> usize {
    if n == 0 {
        1
    } else {
        n
    }
}

pub(crate) fn raise_to_one(n: usize) -> (raised: usize)
    ensures
        raised == at_least_one(n),
{
    if n == 0 {
        1
    } else {
        n
    }
}

} // verus!
