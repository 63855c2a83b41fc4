//! Usage counting for one call pattern.
use vstd::prelude::*;

verus! {

/// How many times a call pattern is expected to be used.
#[derive(Clone, Copy, Debug, PartialEq, Eq, Structural)]
pub enum CountExpectation {
    /// Any number of uses is acceptable.
    Unconstrained,
    /// The pattern must be used exactly this many times.
    Exactly(usize),
    /// The pattern must be used at least this many times.
    AtLeast(usize),
}

/// Whether `actual` uses meet `expectation`.
pub open spec fn expectation_met(expectation: CountExpectation, actual: nat) -> bool {
    match expectation {
        CountExpectation::Unconstrained => true,
        CountExpectation::Exactly(n) => actual == n,
        CountExpectation::AtLeast(n) => actual >= n,
    }
}

/// Whether a pattern with `actual` uses may not be used again: its
/// expectation is "exactly N" and N uses have been made.
pub open spec fn expectation_exhausted(expectation: CountExpectation, actual: nat) -> bool {
    match expectation {
        CountExpectation::Exactly(n) => actual >= n,
        _ => false,
    }
}

/// The invocation counter of one call pattern, paired with its expectation.
#[derive(Clone, Copy, Debug, PartialEq, Eq, Structural)]
pub struct CallCounter {
    pub actual: usize,
    pub expectation: CountExpectation,
}

impl CallCounter {
    /// A counter that has seen no call yet.
    pub fn new(expectation: CountExpectation) -> (r: CallCounter)
        ensures
            r.actual == 0,
            r.expectation == expectation,
    {
        CallCounter { actual: 0, expectation }
    }

    /// Replaces the expectation, keeping the count.
    pub fn set_expectation(&mut self, expectation: CountExpectation)
        ensures
            final(self).actual == old(self).actual,
            final(self).expectation == expectation,
    {
        self.expectation = expectation;
    }

    /// Records one more use. Returns `false`, leaving the counter as it
    /// was, only when the count is already at the largest `usize`.
    pub fn tick(&mut self) -> (r: bool)
        ensures
            r == (old(self).actual < usize::MAX),
            final(self).expectation == old(self).expectation,
            r ==> final(self).actual == old(self).actual + 1,
            !r ==> final(self).actual == old(self).actual,
    {
        if self.actual < usize::MAX {
            self.actual = self.actual + 1;
            true
        } else {
            false
        }
    }

    /// Whether the counter meets its expectation.
    pub fn is_satisfied(&self) -> (r: bool)
        ensures
            r == expectation_met(self.expectation, self.actual as nat),
    {
        match self.expectation {
            CountExpectation::Unconstrained => true,
            CountExpectation::Exactly(n) => self.actual == n,
            CountExpectation::AtLeast(n) => self.actual >= n,
        }
    }

    /// Whether the counter has used up an "exactly N" expectation.
    pub fn is_exhausted(&self) -> (r: bool)
        ensures
            r == expectation_exhausted(self.expectation, self.actual as nat),
    {
        match self.expectation {
            CountExpectation::Exactly(n) => self.actual >= n,
            _ => false,
        }
    }
}

} // verus!
