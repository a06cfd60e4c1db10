use vstd::prelude::*;

verus! {

/// An 8-bit counter that counts down to zero and stays there.
#[derive(Debug, Default, Clone, Copy)]
pub struct Timer {
    pub count: u8,
}

impl Timer {
    /// Counts down by one, stopping at zero.
    pub fn tick(&mut self)
        ensures
            final(self).count == if old(self).count == 0 { 0 } else { (old(self).count - 1) as u8 },
    {
        self.count = self.count.saturating_sub(1);
    }

    pub fn cur_count(self) -> (r: u8)
        ensures
            r == self.count,
    {
        self.count
    }

    pub fn set(&mut self, val: u8)
        ensures
            final(self).count == val,
    {
        self.count = val;
    }
}

} // verus!
