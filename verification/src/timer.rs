//! A label for a timed phase of the engine's work.
//!
//! The engine itself only names its phases; measuring and reporting them is
//! host-environment instrumentation and lives with the host.

use vstd::prelude::*;

verus! {

/// The name of a phase whose duration a host may measure.
pub struct Timer<'a> {
    /// What the phase is called in the host's report.
    pub name: &'a str,
}

impl<'a> Timer<'a> {
    /// Open a timed phase under the given name.
    pub fn new(name: &'a str) -> (t: Timer<'a>)
        ensures
            t.name@ == name@,
    {
        Timer { name }
    }
}

} // verus!
