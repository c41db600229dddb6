//! Duplicate suppression for the consumer of published counts.
use vstd::prelude::*;

verus! {

/// Remembers the last count reported and lets through only counts that
/// differ from it.
pub struct ChangeFilter {
    last_count: i64,
}

impl View for ChangeFilter {
    /// The last count reported.
    type V = i64;

    closed spec fn view(&self) -> i64 {
        self.last_count
    }
}

impl ChangeFilter {
    /// A filter that treats 0 as already reported.
    pub fn new() -> (r: ChangeFilter)
        ensures
            r@ == 0,
    {
        ChangeFilter { last_count: 0 }
    }

    /// The last count reported (0 before any).
    pub fn last_reported(&self) -> (r: i64)
        ensures
            r == self@,
    {
        self.last_count
    }

    /// Takes the latest published `count`: returns it, and remembers it, when
    /// it differs from the last count reported; otherwise returns `None`
    /// and changes nothing.
    pub fn observe(&mut self, count: i64) -> (r: Option<i64>)
        ensures
            count == old(self)@ ==> r is None && final(self)@ == old(self)@,
            count != old(self)@ ==> r == Some(count) && final(self)@ == count,
    {
        if count != self.last_count {
            self.last_count = count;
            Some(count)
        } else {
            None
        }
    }
}

} // verus!
