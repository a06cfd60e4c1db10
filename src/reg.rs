use vstd::prelude::*;

verus! {

/// The largest value the index register may hold: twelve bits.
pub const U12_MAX: u16 = 0xFFF;

/// A 12-bit address register.
#[derive(Debug, Default, Clone, Copy, PartialEq, Eq, Structural)]
pub struct IndexRegister {
    pub inner: u16,
}

impl IndexRegister {
    pub open spec fn wf(&self) -> bool {
        self.inner <= U12_MAX
    }

    /// Stores `v`, which must fit in twelve bits.
    pub fn load(&mut self, v: u16)
        requires
            v <= U12_MAX,
        ensures
            final(self).inner == v,
            final(self).wf(),
    {
        self.inner = v;
    }

    pub fn get(self) -> (r: usize)
        ensures
            r == self.inner,
    {
        self.inner as usize
    }

    /// Adds a byte; the caller keeps the sum within twelve bits.
    pub fn add(&mut self, v: u8)
        requires
            old(self).inner + v <= U12_MAX,
        ensures
            final(self).inner == old(self).inner + v,
            final(self).wf(),
    {
        self.inner = self.inner + v as u16;
    }
}

} // verus!
