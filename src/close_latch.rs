use vstd::prelude::*;

verus! {

/// Lets only the first of the host's close notifications act: the window
/// close request and the session end may both arrive.
pub struct CloseLatch {
    fired: bool,
}

impl CloseLatch {
    pub closed spec fn has_fired(&self) -> bool {
        self.fired
    }

    pub fn new() -> (r: CloseLatch)
        ensures
            !r.has_fired(),
    {
        CloseLatch { fired: false }
    }

    /// Claims the latch for a notification: `true` for the first claim only.
    pub fn claim(&mut self) -> (r: bool)
        ensures
            r == !old(self).has_fired(),
            final(self).has_fired(),
    {
        let first = !self.fired;
        self.fired = true;
        first
    }

    pub fn fired(&self) -> (r: bool)
        ensures
            r == self.has_fired(),
    {
        self.fired
    }
}

} // verus!
