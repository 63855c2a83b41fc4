//! The patterns of one operation and the selection of a pattern for a call.
use vstd::prelude::*;

use crate::pattern::{accepts, Matcher, Pattern};

verus! {

/// How the patterns of an operation are selected.
#[derive(Clone, Copy, Debug, PartialEq, Eq, Structural)]
pub enum MatchMode {
    /// The first accepting, non-exhausted pattern in insertion order wins.
    Unordered,
    /// Calls must follow the session-wide declared sequence.
    InOrder,
}

/// The patterns registered for one operation and their matching mode.
#[derive(Debug)]
pub struct Registry {
    pub op: u64,
    pub mode: MatchMode,
    pub patterns: Vec<Pattern>,
}

/// A registry as a value: its operation, mode and patterns.
pub struct RegistryView {
    pub op: u64,
    pub mode: MatchMode,
    pub patterns: Seq<Pattern>,
}

impl View for Registry {
    type V = RegistryView;

    open spec fn view(&self) -> RegistryView {
        RegistryView { op: self.op, mode: self.mode, patterns: self.patterns@ }
    }
}

/// The first position at or after `k` whose pattern may take `input`,
/// or -1 if there is none.
pub open spec fn first_eligible_from(pats: Seq<Pattern>, input: Seq<char>, k: int) -> int
    decreases pats.len() - k,
{
    if k < 0 || k >= pats.len() {
        -1
    } else if pats[k].eligible(input) {
        k
    } else {
        first_eligible_from(pats, input, k + 1)
    }
}

/// The first position at or after `k` whose matcher accepts `input`,
/// or -1 if there is none.
pub open spec fn first_accepting_from(pats: Seq<Pattern>, input: Seq<char>, k: int) -> int
    decreases pats.len() - k,
{
    if k < 0 || k >= pats.len() {
        -1
    } else if accepts(pats[k].matcher, input) {
        k
    } else {
        first_accepting_from(pats, input, k + 1)
    }
}

/// The outcome of unordered selection among the patterns of an operation.
#[derive(Clone, Copy, Debug, PartialEq, Eq, Structural)]
pub enum Selection {
    /// This pattern takes the call.
    Selected(usize),
    /// Only exhausted patterns accept the input; this is the first of them.
    Exhausted(usize),
    /// No pattern accepts the input.
    Unmatched,
}

/// Which pattern unordered dispatch selects for `input`.
pub open spec fn selection(pats: Seq<Pattern>, input: Seq<char>) -> Selection {
    let e = first_eligible_from(pats, input, 0);
    let a = first_accepting_from(pats, input, 0);
    if e >= 0 {
        Selection::Selected(e as usize)
    } else if a >= 0 {
        Selection::Exhausted(a as usize)
    } else {
        Selection::Unmatched
    }
}

proof fn lemma_first_eligible_from(pats: Seq<Pattern>, input: Seq<char>, k: int)
    requires
        0 <= k <= pats.len(),
    ensures
        ({
            let e = first_eligible_from(pats, input, k);
            &&& e == -1 || (k <= e < pats.len() && pats[e].eligible(input))
            &&& forall|j: int| k <= j < pats.len() && (e == -1 || j < e) ==> !#[trigger] pats[j].eligible(input)
        }),
    decreases pats.len() - k,
{
    if k < pats.len() && !pats[k].eligible(input) {
        lemma_first_eligible_from(pats, input, k + 1);
    }
}

proof fn lemma_first_accepting_from(pats: Seq<Pattern>, input: Seq<char>, k: int)
    requires
        0 <= k <= pats.len(),
    ensures
        ({
            let a = first_accepting_from(pats, input, k);
            &&& a == -1 || (k <= a < pats.len() && accepts(pats[a].matcher, input))
            &&& forall|j: int| k <= j < pats.len() && (a == -1 || j < a) ==> !accepts(#[trigger] pats[j].matcher, input)
        }),
    decreases pats.len() - k,
{
    if k < pats.len() && !accepts(pats[k].matcher, input) {
        lemma_first_accepting_from(pats, input, k + 1);
    }
}

/// Unordered dispatch selects the first pattern, in insertion order, whose
/// matcher accepts the input and whose "exactly N" expectation is not used
/// up; it reports exhaustion only when no such pattern exists but some
/// pattern accepts the input, and no match only when none accepts it.
pub proof fn lemma_first_match_wins(pats: Seq<Pattern>, input: Seq<char>)
    requires
        pats.len() <= usize::MAX,
    ensures
        forall|i: usize| #[trigger] selection(pats, input) == Selection::Selected(i) ==> {
            &&& i < pats.len()
            &&& pats[i as int].eligible(input)
            &&& forall|j: int| 0 <= j < i ==> !#[trigger] pats[j].eligible(input)
        },
        (exists|i: int| 0 <= i < pats.len() && #[trigger] pats[i].eligible(input))
            ==> selection(pats, input) is Selected,
        forall|i: usize| #[trigger] selection(pats, input) == Selection::Exhausted(i) ==> {
            &&& i < pats.len()
            &&& accepts(pats[i as int].matcher, input)
            &&& forall|j: int| 0 <= j < pats.len() ==> !#[trigger] pats[j].eligible(input)
        },
        selection(pats, input) is Unmatched
            <==> forall|j: int| 0 <= j < pats.len() ==> !accepts(#[trigger] pats[j].matcher, input),
{
    lemma_first_eligible_from(pats, input, 0);
    lemma_first_accepting_from(pats, input, 0);
}

impl Registry {
    /// Selects the pattern that takes a call with `input` in unordered mode.
    pub fn select(&self, input: &String) -> (r: Selection)
        ensures
            r == selection(self.patterns@, input@),
    {
        let ghost pats = self.patterns@;
        let mut i: usize = 0;
        let mut exhausted: Option<usize> = None;
        while i < self.patterns.len()
            invariant
                i <= pats.len(),
                pats == self.patterns@,
                first_eligible_from(pats, input@, 0) == first_eligible_from(pats, input@, i as int),
                exhausted is None ==> first_accepting_from(pats, input@, 0) == first_accepting_from(pats, input@, i as int),
                exhausted matches Some(a) ==> first_accepting_from(pats, input@, 0) == a && a < i,
            decreases pats.len() - i,
        {
            let p = &self.patterns[i];
            if p.matcher.matches(input) {
                if !p.counter.is_exhausted() {
                    return Selection::Selected(i);
                }
                if exhausted.is_none() {
                    exhausted = Some(i);
                }
            }
            i = i + 1;
        }
        match exhausted {
            Some(a) => Selection::Exhausted(a),
            None => Selection::Unmatched,
        }
    }

    /// The matchers of the patterns, in insertion order.
    pub fn matchers(&self) -> (r: Vec<Matcher>)
        ensures
            r@ == self.patterns@.map_values(|p: Pattern| p.matcher),
    {
        let mut r: Vec<Matcher> = Vec::new();
        let mut i: usize = 0;
        while i < self.patterns.len()
            invariant
                i <= self.patterns@.len(),
                r@ == self.patterns@.subrange(0, i as int).map_values(|p: Pattern| p.matcher),
            decreases self.patterns@.len() - i,
        {
            r.push(self.patterns[i].matcher.duplicate());
            i = i + 1;
            assert(r@ =~= self.patterns@.subrange(0, i as int).map_values(|p: Pattern| p.matcher));
        }
        assert(self.patterns@.subrange(0, i as int) =~= self.patterns@);
        r
    }
}

} // verus!
