use vstd::prelude::*;

verus! {

/// A counter that never exceeds the bound it was made with: assignment and
/// addition clamp to the bound, subtraction stops at zero.
#[derive(Debug, Copy, Clone)]
pub struct Saturating {
    val: usize,
    max: usize,
}

impl Saturating {
    /// The current value.
    pub closed spec fn value_spec(&self) -> nat {
        self.val as nat
    }

    /// The bound.
    pub closed spec fn max_spec(&self) -> nat {
        self.max as nat
    }

    pub closed spec fn wf(&self) -> bool {
        self.val <= self.max
    }

    pub fn new(max: usize) -> (s: Saturating)
        ensures
            s.wf(),
            s.value_spec() == 0,
            s.max_spec() == max,
    {
        Saturating { val: 0, max }
    }

    /// Assigns `val`, clamped to the bound.
    pub fn set(&mut self, val: usize)
        ensures
            final(self).wf(),
            final(self).max_spec() == old(self).max_spec(),
            final(self).value_spec() == if val <= old(self).max_spec() {
                val as nat
            } else {
                old(self).max_spec()
            },
    {
        self.val = if val <= self.max {
            val
        } else {
            self.max
        };
    }

    /// Reports the sum of the value and `val`, and whether that sum lies
    /// beyond the bound; the counter itself is left as it is.
    pub fn add_check(&mut self, val: usize) -> (r: (usize, bool))
        requires
            old(self).value_spec() + val <= usize::MAX,
        ensures
            *final(self) == *old(self),
            r.0 == old(self).value_spec() + val,
            r.1 == (old(self).value_spec() + val > old(self).max_spec()),
    {
        let result = self.val + val;
        (result, result > self.max)
    }

    /// Adds `rhs`, clamping the sum to the bound.
    pub fn add_assign(&mut self, rhs: usize)
        requires
            old(self).wf(),
        ensures
            final(self).wf(),
            final(self).max_spec() == old(self).max_spec(),
            final(self).value_spec() == if old(self).value_spec() + rhs <= old(self).max_spec() {
                old(self).value_spec() + rhs
            } else {
                old(self).max_spec() as int
            },
    {
        self.val = if rhs <= self.max - self.val {
            self.val + rhs
        } else {
            self.max
        };
    }

    /// Subtracts `rhs`, stopping at zero.
    pub fn sub_assign(&mut self, rhs: usize)
        requires
            old(self).wf(),
        ensures
            final(self).wf(),
            final(self).max_spec() == old(self).max_spec(),
            final(self).value_spec() == if rhs <= old(self).value_spec() {
                old(self).value_spec() - rhs
            } else {
                0
            },
    {
        self.val = if rhs <= self.val {
            self.val - rhs
        } else {
            0
        };
    }

    /// The current value.
    pub fn get(&self) -> (v: usize)
        ensures
            v == self.value_spec(),
    {
        self.val
    }
}

} // verus!
