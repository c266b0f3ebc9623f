//! The per-thread re-entry flag that gates every byte observation: while
//! one interception is being processed, any nested one passes through.
use vstd::prelude::*;

verus! {

pub struct HookGuard {
    pub active: bool,
}

/// Whether an entry attempt with the flag at `active` is admitted.
pub open spec fn admits(active: bool) -> bool {
    !active
}

impl HookGuard {
    pub fn new() -> (r: HookGuard)
        ensures
            !r.active,
    {
        HookGuard { active: false }
    }

    /// Admits the caller when no interception is in progress, and marks one
    /// in progress either way.
    pub fn try_enter(&mut self) -> (r: bool)
        ensures
            r == admits(old(self).active),
            final(self).active,
    {
        let r = !self.active;
        self.active = true;
        r
    }

    /// Ends the admitted caller's interception.
    pub fn leave(&mut self)
        ensures
            !final(self).active,
    {
        self.active = false;
    }
}

} // verus!
