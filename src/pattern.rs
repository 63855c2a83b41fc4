//! Call patterns: an argument matcher, a responder and a usage counter.
use vstd::prelude::*;

use crate::counter::{CallCounter, CountExpectation};
use vstd::utf8::encode_utf8;

verus! {

/// A predicate over the input of a call.
#[derive(Debug)]
pub enum Matcher {
    /// Accepts every input.
    Any,
    /// Accepts exactly the given input.
    Equals(String),
}

/// Whether `m` accepts `input`.
pub open spec fn accepts(m: Matcher, input: Seq<char>) -> bool {
    match m {
        Matcher::Any => true,
        Matcher::Equals(v) => v@ == input,
    }
}

impl Matcher {
    /// Whether this matcher accepts `input`.
    pub fn matches(&self, input: &String) -> (r: bool)
        ensures
            r == accepts(*self, input@),
    {
        match self {
            Matcher::Any => true,
            Matcher::Equals(v) => *v == *input,
        }
    }

    /// An independent copy of this matcher.
    pub fn duplicate(&self) -> (r: Matcher)
        ensures
            r == *self,
    {
        match self {
            Matcher::Any => Matcher::Any,
            Matcher::Equals(v) => Matcher::Equals(v.clone()),
        }
    }
}

/// What a matched call pattern produces.
#[derive(Debug)]
pub enum Responder {
    /// No responder was configured: invoking it is an error.
    Unset,
    /// Produces this value on every call.
    Value(u64),
    /// Produces the output type's default value, zero.
    Default,
    /// Produces a value computed from the input: its length in UTF-8 bytes.
    InputLength,
    /// Fails unconditionally with this message.
    Panics(String),
}

/// What a responder yields for an input, before any error is attributed.
pub enum Response {
    Output(u64),
    Missing,
    Failure(String),
}

/// The response of `r` to `input`.
pub open spec fn response_of(r: Responder, input: Seq<char>) -> Response {
    match r {
        Responder::Unset => Response::Missing,
        Responder::Value(v) => Response::Output(v),
        Responder::Default => Response::Output(0),
        Responder::InputLength => Response::Output((encode_utf8(input).len() as usize) as u64),
        Responder::Panics(m) => Response::Failure(m),
    }
}

impl Responder {
    /// Invokes this responder on `input`.
    pub fn respond(&self, input: &String) -> (r: Response)
        ensures
            r == response_of(*self, input@),
    {
        match self {
            Responder::Unset => Response::Missing,
            Responder::Value(v) => Response::Output(*v),
            Responder::Default => Response::Output(0),
            Responder::InputLength => Response::Output(input.as_str().len() as u64),
            Responder::Panics(m) => Response::Failure(m.clone()),
        }
    }
}

/// One expected call: a matcher, a responder and a counter.
#[derive(Debug)]
pub struct Pattern {
    /// Position among the patterns of its operation.
    pub index: usize,
    pub matcher: Matcher,
    pub responder: Responder,
    pub counter: CallCounter,
}

impl Pattern {
    /// A fresh pattern at `index`: no responder, no count constraint,
    /// no use yet.
    pub fn new(index: usize, matcher: Matcher) -> (r: Pattern)
        ensures
            r.index == index,
            r.matcher == matcher,
            r.responder == Responder::Unset,
            r.counter.actual == 0,
            r.counter.expectation == CountExpectation::Unconstrained,
    {
        Pattern {
            index,
            matcher,
            responder: Responder::Unset,
            counter: CallCounter::new(CountExpectation::Unconstrained),
        }
    }

    /// Whether this pattern may take a call with `input`: its matcher
    /// accepts the input and its counter is not exhausted.
    pub open spec fn eligible(self, input: Seq<char>) -> bool {
        accepts(self.matcher, input) && !expectation_exhausted_of(self.counter)
    }
}

/// Whether `c` has used up an "exactly N" expectation.
pub open spec fn expectation_exhausted_of(c: CallCounter) -> bool {
    crate::counter::expectation_exhausted(c.expectation, c.actual as nat)
}

} // verus!
