//! The runtime wrapper whose helper methods delimit a guarded region.
//!
//! Calls into the restricted library are supposed to happen inside a
//! closure handed to one of these helpers; the engine's stock
//! configuration recognizes exactly their names as wrapper names.  The
//! helpers run the closure they are given and hand its result back.

use vstd::prelude::*;

verus! {

/// The handle whose helper methods run a guarded closure.
pub struct Runtime {}

impl Runtime {
    /// Run a guarded closure for its effect.
    pub fn run_with_obs<F: FnOnce()>(&self, f: F)
        requires
            call_requires(f, ()),
        ensures
            call_ensures(f, (), ()),
    {
        f()
    }

    /// Run a guarded closure and hand back its result.
    pub fn run_with_obs_result<T, F: FnOnce() -> T>(&self, f: F) -> (r: T)
        requires
            call_requires(f, ()),
        ensures
            call_ensures(f, (), r),
    {
        f()
    }
}

} // verus!
