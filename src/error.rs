//! The failures that dispatch and verification report.
use vstd::prelude::*;

use crate::counter::CountExpectation;
use crate::pattern::Matcher;

verus! {

/// A contract violation found while dispatching a call or verifying a
/// session. Each names the operation it concerns.
#[derive(Debug)]
pub enum MockError {
    /// No pattern accepted the input and no fallback applies. Carries the
    /// input and the matchers registered for the operation, in order.
    NoMatch { op: u64, input: String, patterns: Vec<Matcher> },
    /// The input was accepted only by patterns whose "exactly N"
    /// expectation is used up; `pattern` is the first of them.
    Exhausted { op: u64, pattern: usize },
    /// A strictly ordered call arrived out of order. `expected` is the
    /// operation and pattern due at `position`, `None` past the end of
    /// the declared sequence.
    OrderViolation { op: u64, position: usize, expected: Option<(u64, usize)> },
    /// The matched pattern has no responder.
    NoOutput { op: u64, pattern: usize },
    /// The matched pattern was configured to fail with `message`.
    ExplicitFailure { op: u64, pattern: usize, message: String },
    /// The matched pattern's counter is at the largest `usize`.
    CountOverflow { op: u64, pattern: usize },
    /// At teardown, a pattern's count does not meet its expectation.
    UnmetExpectation { op: u64, pattern: usize, actual: usize, expectation: CountExpectation },
    /// An operation was registered twice, or in two matching modes.
    DuplicateOperation { op: u64 },
}

/// Whether two errors carry the same report.
pub open spec fn same_error(a: MockError, b: MockError) -> bool {
    match (a, b) {
        (
            MockError::NoMatch { op: oa, input: ia, patterns: pa },
            MockError::NoMatch { op: ob, input: ib, patterns: pb },
        ) => oa == ob && ia == ib && pa@ == pb@,
        _ => a == b,
    }
}

/// Whether two lists of errors carry the same reports, in the same order.
pub open spec fn same_errors(a: Seq<MockError>, b: Seq<MockError>) -> bool {
    a.len() == b.len() && forall|i: int| 0 <= i < a.len() ==> same_error(#[trigger] a[i], b[i])
}

/// A copy of a list of matchers.
pub fn copy_matchers(v: &Vec<Matcher>) -> (r: Vec<Matcher>)
    ensures
        r@ == v@,
{
    let mut r: Vec<Matcher> = Vec::new();
    let mut i: usize = 0;
    while i < v.len()
        invariant
            i <= v.len(),
            r@ == v@.subrange(0, i as int),
        decreases v.len() - i,
    {
        r.push(v[i].duplicate());
        i = i + 1;
        assert(r@ =~= v@.subrange(0, i as int));
    }
    assert(r@ =~= v@);
    r
}

impl MockError {
    /// An independent copy of this error.
    pub fn duplicate(&self) -> (r: MockError)
        ensures
            same_error(r, *self),
    {
        match self {
            MockError::NoMatch { op, input, patterns } => MockError::NoMatch {
                op: *op,
                input: input.clone(),
                patterns: copy_matchers(patterns),
            },
            MockError::Exhausted { op, pattern } => MockError::Exhausted { op: *op, pattern: *pattern },
            MockError::OrderViolation { op, position, expected } => MockError::OrderViolation {
                op: *op,
                position: *position,
                expected: *expected,
            },
            MockError::NoOutput { op, pattern } => MockError::NoOutput { op: *op, pattern: *pattern },
            MockError::ExplicitFailure { op, pattern, message } => MockError::ExplicitFailure {
                op: *op,
                pattern: *pattern,
                message: message.clone(),
            },
            MockError::CountOverflow { op, pattern } => MockError::CountOverflow { op: *op, pattern: *pattern },
            MockError::UnmetExpectation { op, pattern, actual, expectation } => {
                MockError::UnmetExpectation {
                    op: *op,
                    pattern: *pattern,
                    actual: *actual,
                    expectation: *expectation,
                }
            },
            MockError::DuplicateOperation { op } => MockError::DuplicateOperation { op: *op },
        }
    }
}

/// A copy of a list of errors, report for report.
pub fn copy_errors(v: &Vec<MockError>) -> (r: Vec<MockError>)
    ensures
        same_errors(r@, v@),
{
    let mut r: Vec<MockError> = Vec::new();
    let mut i: usize = 0;
    while i < v.len()
        invariant
            i <= v.len(),
            r@.len() == i,
            forall|k: int| 0 <= k < i ==> same_error(#[trigger] r@[k], v@[k]),
        decreases v.len() - i,
    {
        r.push(v[i].duplicate());
        i = i + 1;
    }
    r
}

} // verus!
