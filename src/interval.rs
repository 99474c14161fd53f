use vstd::prelude::*;

verus! {

/// An open range of ray parameters, carried as order keys.
///
/// A ray parameter enters the library as an integer key whose order is the
/// order of the distances it stands for; the floating-point arithmetic that
/// produces distances stays with the caller.
#[derive(Clone, Copy, Debug, PartialEq, Eq)]
pub struct Interval {
    pub min: i64,
    pub max: i64,
}

impl Interval {
    /// Whether `v` lies strictly between the two bounds.
    pub open spec fn spec_surrounds(self, v: int) -> bool {
        self.min < v && v < self.max
    }

    pub open spec fn empty_spec() -> Interval {
        Interval { min: i64::MAX, max: i64::MIN }
    }

    pub fn new(min: i64, max: i64) -> (r: Interval)
        ensures
            r.min == min,
            r.max == max,
    {
        Interval { min, max }
    }

    /// The interval that holds no value: its lower bound is the largest key
    /// and its upper bound the smallest.
    pub fn empty() -> (r: Interval)
        ensures
            r == Interval::empty_spec(),
            forall|v: int| !r.spec_surrounds(v),
    {
        Interval { min: i64::MAX, max: i64::MIN }
    }

    pub fn surrounds(&self, value: i64) -> (r: bool)
        ensures
            r == self.spec_surrounds(value as int),
    {
        self.min < value && value < self.max
    }
}

impl Default for Interval {
    fn default() -> (r: Interval)
        ensures
            r == Interval::empty_spec(),
    {
        Interval::empty()
    }
}

/// Both bounds are excluded, and every value strictly between them is held.
pub proof fn lemma_surrounds_strict(iv: Interval, mid: int)
    ensures
        !iv.spec_surrounds(iv.min as int),
        !iv.spec_surrounds(iv.max as int),
        iv.min < mid < iv.max ==> iv.spec_surrounds(mid),
{
}

} // verus!
