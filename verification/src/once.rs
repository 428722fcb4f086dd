//! Running something once per call site.

use vstd::prelude::*;

verus! {

/// The guard of one call site: it lets the first caller through and no one
/// after.
#[derive(Debug)]
pub struct OnceFlag {
    should_run: bool,
}

impl View for OnceFlag {
    type V = bool;

    /// Whether the next caller is still let through.
    closed spec fn view(&self) -> bool {
        self.should_run
    }
}

impl OnceFlag {
    /// A guard that nobody has passed yet.
    pub fn new() -> (r: OnceFlag)
        ensures
            r@,
    {
        OnceFlag { should_run: true }
    }

    /// Asks to pass. The answer is `true` for the first caller only.
    pub fn take(&mut self) -> (r: bool)
        ensures
            r == old(self)@,
            !final(self)@,
    {
        let first = self.should_run;
        self.should_run = false;
        first
    }
}

} // verus!
