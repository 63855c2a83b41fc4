//! The fluent API that assembles the call patterns of one operation.
use vstd::prelude::*;

use crate::counter::{CallCounter, CountExpectation};
use crate::pattern::{Matcher, Pattern, Responder};

verus! {

/// `p` with its responder replaced by `r`.
pub open spec fn with_responder(p: Pattern, r: Responder) -> Pattern {
    Pattern { responder: r, ..p }
}

/// `p` with its count expectation replaced by `e`, its count kept.
pub open spec fn with_expectation(p: Pattern, e: CountExpectation) -> Pattern {
    Pattern { counter: CallCounter { expectation: e, ..p.counter }, ..p }
}

/// The pattern that `Each::call` appends at `index` for `matcher`.
pub open spec fn fresh_pattern(index: usize, matcher: Matcher) -> Pattern {
    Pattern {
        index,
        matcher,
        responder: Responder::Unset,
        counter: CallCounter { actual: 0, expectation: CountExpectation::Unconstrained },
    }
}

/// Builder for the call patterns of one operation, in insertion order.
pub struct Each {
    patterns: Vec<Pattern>,
}

impl View for Each {
    type V = Seq<Pattern>;

    closed spec fn view(&self) -> Seq<Pattern> {
        self.patterns@
    }
}

impl Each {
    /// A builder with no pattern.
    pub fn new() -> (r: Each)
        ensures
            r@ == Seq::<Pattern>::empty(),
    {
        Each { patterns: Vec::new() }
    }

    /// Appends a pattern that takes the calls whose input `matching`
    /// accepts, with no responder and no count constraint yet, and returns
    /// the handle that configures it.
    pub fn call(self, matching: Matcher) -> (r: Call)
        ensures
            r@ == self@.push(fresh_pattern(self@.len() as usize, matching)),
    {
        let mut patterns = self.patterns;
        let pat_index = patterns.len();
        patterns.push(Pattern::new(pat_index, matching));
        Call { patterns }
    }

    /// The patterns, in insertion order.
    pub fn build(self) -> (r: Vec<Pattern>)
        ensures
            r@ == self@,
    {
        self.patterns
    }
}

/// Handle configuring the most recently appended pattern of a builder.
/// Configuring the same aspect twice keeps the last setting.
pub struct Call {
    patterns: Vec<Pattern>,
}

impl View for Call {
    type V = Seq<Pattern>;

    closed spec fn view(&self) -> Seq<Pattern> {
        self.patterns@
    }
}

impl Call {
    #[verifier::type_invariant]
    spec fn has_current(&self) -> bool {
        self.patterns@.len() > 0
    }

    fn set_responder(self, responder: Responder) -> (r: Call)
        ensures
            r@ == self@.update(self@.len() - 1, with_responder(self@.last(), responder)),
    {
        proof {
            use_type_invariant(&self);
        }
        let mut patterns = self.patterns;
        let mut p = patterns.pop().unwrap();
        p.responder = responder;
        patterns.push(p);
        assert(patterns@ =~= self@.update(self@.len() - 1, with_responder(self@.last(), responder)));
        Call { patterns }
    }

    fn set_expectation(self, expectation: CountExpectation) -> (r: Call)
        ensures
            r@ == self@.update(self@.len() - 1, with_expectation(self@.last(), expectation)),
    {
        proof {
            use_type_invariant(&self);
        }
        let mut patterns = self.patterns;
        let mut p = patterns.pop().unwrap();
        p.counter.set_expectation(expectation);
        patterns.push(p);
        assert(patterns@ =~= self@.update(self@.len() - 1, with_expectation(self@.last(), expectation)));
        Call { patterns }
    }

    /// Responds to every matched call with `value`.
    pub fn returns_value(self, value: u64) -> (r: Call)
        ensures
            r@ == self@.update(self@.len() - 1, with_responder(self@.last(), Responder::Value(value))),
    {
        self.set_responder(Responder::Value(value))
    }

    /// Responds to every matched call with the default output, zero.
    pub fn returns_default(self) -> (r: Call)
        ensures
            r@ == self@.update(self@.len() - 1, with_responder(self@.last(), Responder::Default)),
    {
        self.set_responder(Responder::Default)
    }

    /// Responds with a value computed from the call's input: its length.
    pub fn answers(self) -> (r: Call)
        ensures
            r@ == self@.update(self@.len() - 1, with_responder(self@.last(), Responder::InputLength)),
    {
        self.set_responder(Responder::InputLength)
    }

    /// Makes every matched call fail with `message`.
    pub fn panics(self, message: String) -> (r: Call)
        ensures
            r@ == self@.update(self@.len() - 1, with_responder(self@.last(), Responder::Panics(message))),
    {
        self.set_responder(Responder::Panics(message))
    }

    /// Expects the pattern never to be used.
    pub fn never(self) -> (r: Call)
        ensures
            r@ == self@.update(self@.len() - 1, with_expectation(self@.last(), CountExpectation::Exactly(0))),
    {
        self.set_expectation(CountExpectation::Exactly(0))
    }

    /// Expects the pattern to be used exactly once.
    pub fn once(self) -> (r: Call)
        ensures
            r@ == self@.update(self@.len() - 1, with_expectation(self@.last(), CountExpectation::Exactly(1))),
    {
        self.set_expectation(CountExpectation::Exactly(1))
    }

    /// Expects the pattern to be used exactly `times` times.
    pub fn times(self, times: usize) -> (r: Call)
        ensures
            r@ == self@.update(self@.len() - 1, with_expectation(self@.last(), CountExpectation::Exactly(times))),
    {
        self.set_expectation(CountExpectation::Exactly(times))
    }

    /// Expects the pattern to be used at least `times` times.
    pub fn at_least(self, times: usize) -> (r: Call)
        ensures
            r@ == self@.update(self@.len() - 1, with_expectation(self@.last(), CountExpectation::AtLeast(times))),
    {
        self.set_expectation(CountExpectation::AtLeast(times))
    }

    /// Finishes this pattern and returns the builder, to append more.
    pub fn each(self) -> (r: Each)
        ensures
            r@ == self@,
    {
        Each { patterns: self.patterns }
    }
}

} // verus!
