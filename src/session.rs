//! The session shared by every dispatch of one scenario: the registries of
//! all operations, the global sequence of strictly ordered calls, its
//! cursor, and the failures captured off the originating thread.
use vstd::prelude::*;

use crate::builders::Each;
use crate::counter::{expectation_met, CallCounter, CountExpectation};
use crate::error::{copy_errors, same_error, same_errors, MockError};
use crate::pattern::{accepts, response_of, Pattern, Response};
use crate::registry::{selection, MatchMode, Registry, RegistryView, Selection};

verus! {

/// What happens to a call that no pattern takes.
#[derive(Clone, Copy, Debug, PartialEq, Eq, Structural)]
pub enum FallbackMode {
    /// The call is a contract violation.
    Error,
    /// The call is handed to the real implementation.
    Delegate,
    /// The call proceeds with a neutral result.
    Ignore,
}

/// The successful result of a dispatched call.
#[derive(Clone, Copy, Debug, PartialEq, Eq, Structural)]
pub enum Outcome {
    /// The matched pattern produced this value.
    Output(u64),
    /// No pattern took the call; the caller delegates it.
    Delegate,
    /// No pattern took the call and it is ignored.
    Ignored,
}

/// The first position at or after `k` of a registry for `op`, or -1.
pub open spec fn position_from(regs: Seq<RegistryView>, op: u64, k: int) -> int
    decreases regs.len() - k,
{
    if k < 0 || k >= regs.len() {
        -1
    } else if regs[k].op == op {
        k
    } else {
        position_from(regs, op, k + 1)
    }
}

proof fn lemma_position_from(regs: Seq<RegistryView>, op: u64, k: int)
    requires
        0 <= k <= regs.len(),
    ensures
        ({
            let p = position_from(regs, op, k);
            &&& p == -1 || (k <= p < regs.len() && regs[p].op == op)
            &&& forall|j: int| k <= j < regs.len() && (p == -1 || j < p) ==> #[trigger] regs[j].op != op
        }),
    decreases regs.len() - k,
{
    if k < regs.len() && regs[k].op != op {
        lemma_position_from(regs, op, k + 1);
    }
}

/// The position of the registry for `op`, or -1 if it has none.
pub open spec fn position_of(regs: Seq<RegistryView>, op: u64) -> int {
    position_from(regs, op, 0)
}

/// The pattern added to a strictly ordered registry at `index`: it takes
/// exactly one call, at its place in the global sequence.
pub open spec fn in_order_pattern(p: Pattern, index: usize) -> Pattern {
    Pattern {
        index,
        counter: CallCounter { actual: 0, expectation: CountExpectation::Exactly(1) },
        ..p
    }
}

/// The patterns of `each` as appended to a strictly ordered registry that
/// held `base` patterns.
pub open spec fn appended_patterns(each: Seq<Pattern>, base: nat) -> Seq<Pattern> {
    Seq::new(each.len(), |k: int| in_order_pattern(each[k], (base + k) as usize))
}

/// The positions of the global sequence taken by `n` patterns appended to
/// registry `ri`, which held `base` patterns.
pub open spec fn appended_slots(ri: usize, base: nat, n: nat) -> Seq<(usize, usize)> {
    Seq::new(n, |k: int| (ri, (base + k) as usize))
}

/// Which way a call goes, before any pattern is invoked.
pub enum Decision {
    /// Pattern `pat` of registry `reg` takes the call.
    Respond(int, int),
    /// Registry `reg` has accepting patterns, all exhausted; `pat` is the
    /// first of them.
    Exhausted(int, int),
    /// Registry `reg` is strictly ordered and the call is not the one due.
    OutOfOrder(int),
    /// No pattern of registry `reg`, or no registry (-1), accepts the call.
    Unmatched(int),
}

/// `p` after one more use.
pub open spec fn ticked(p: Pattern) -> Pattern {
    Pattern { counter: CallCounter { actual: (p.counter.actual + 1) as usize, ..p.counter }, ..p }
}

/// `rv` with its pattern `pi` used once more.
pub open spec fn ticked_registry(rv: RegistryView, pi: int) -> RegistryView {
    RegistryView { patterns: rv.patterns.update(pi, ticked(rv.patterns[pi])), ..rv }
}

/// The unmet-expectation reports for the patterns `pats` of `op`, in order.
pub open spec fn unmet_in(op: u64, pats: Seq<Pattern>) -> Seq<MockError>
    decreases pats.len(),
{
    if pats.len() == 0 {
        Seq::empty()
    } else {
        let k = pats.len() - 1;
        let p = pats[k];
        let rest = unmet_in(op, pats.drop_last());
        if expectation_met(p.counter.expectation, p.counter.actual as nat) {
            rest
        } else {
            rest.push(
                MockError::UnmetExpectation {
                    op,
                    pattern: k as usize,
                    actual: p.counter.actual,
                    expectation: p.counter.expectation,
                },
            )
        }
    }
}

/// The unmet-expectation reports for all registries, in order.
pub open spec fn unmet_all(regs: Seq<RegistryView>) -> Seq<MockError>
    decreases regs.len(),
{
    if regs.len() == 0 {
        Seq::empty()
    } else {
        unmet_all(regs.drop_last()) + unmet_in(regs.last().op, regs.last().patterns)
    }
}

/// Whether every pattern of every registry meets its expectation.
pub open spec fn all_met(regs: Seq<RegistryView>) -> bool {
    forall|ri: int, pi: int|
        0 <= ri < regs.len() && 0 <= pi < regs[ri].patterns.len() ==> expectation_met(
            #[trigger] regs[ri].patterns[pi].counter.expectation,
            regs[ri].patterns[pi].counter.actual as nat,
        )
}

/// The shared state of one scenario.
pub struct Session {
    registries: Vec<Registry>,
    order: Vec<(usize, usize)>,
    cursor: usize,
    captured: Vec<MockError>,
    fallback: FallbackMode,
}

impl Session {
    /// The registries, in the order they were added.
    pub closed spec fn regs(&self) -> Seq<RegistryView> {
        self.registries@.map_values(|r: Registry| r@)
    }

    /// The global sequence of strictly ordered calls: for each position,
    /// the registry and the pattern due there.
    pub closed spec fn order(&self) -> Seq<(usize, usize)> {
        self.order@
    }

    /// How many strictly ordered calls have succeeded.
    pub closed spec fn cursor(&self) -> nat {
        self.cursor as nat
    }

    /// The failures captured off the originating thread, oldest first.
    pub closed spec fn captured(&self) -> Seq<MockError> {
        self.captured@
    }

    /// The fallback mode.
    pub closed spec fn fallback(&self) -> FallbackMode {
        self.fallback
    }

    /// Every position of the sequence names a pattern of a strictly
    /// ordered registry, and the cursor is within the sequence.
    pub open spec fn wf(&self) -> bool {
        &&& self.cursor() <= self.order().len()
        &&& forall|k: int| 0 <= k < self.order().len() ==> {
            let (ri, pi) = #[trigger] self.order()[k];
            &&& ri < self.regs().len()
            &&& self.regs()[ri as int].mode == MatchMode::InOrder
            &&& pi < self.regs()[ri as int].patterns.len()
        }
    }

    /// An empty session with the given fallback mode.
    pub fn new(fallback: FallbackMode) -> (r: Session)
        ensures
            r.wf(),
            r.regs() == Seq::<RegistryView>::empty(),
            r.order() == Seq::<(usize, usize)>::empty(),
            r.cursor() == 0,
            r.captured() == Seq::<MockError>::empty(),
            r.fallback() == fallback,
    {
        let r = Session {
            registries: Vec::new(),
            order: Vec::new(),
            cursor: 0,
            captured: Vec::new(),
            fallback,
        };
        assert(r.regs() =~= Seq::<RegistryView>::empty());
        r
    }

    /// Finds the registry for `op`.
    fn find(&self, op: u64) -> (r: Option<usize>)
        ensures
            r matches Some(i) ==> position_of(self.regs(), op) == i as int && i < self.regs().len()
                && self.regs()[i as int].op == op,
            r is None ==> position_of(self.regs(), op) == -1,
    {
        proof {
            lemma_position_from(self.regs(), op, 0);
        }
        let ghost regs = self.regs();
        let mut i: usize = 0;
        while i < self.registries.len()
            invariant
                i <= self.registries@.len(),
                regs == self.regs(),
                regs.len() == self.registries@.len(),
                position_of(regs, op) == position_from(regs, op, i as int),
            decreases self.registries@.len() - i,
        {
            assert(regs[i as int] == self.registries@[i as int]@);
            if self.registries[i].op == op {
                return Some(i);
            }
            i = i + 1;
        }
        None
    }

    /// Registers the patterns of `each` for `op`, matched in unordered
    /// mode. Fails, changing nothing, if `op` already has a registry.
    pub fn add_operation(&mut self, op: u64, each: Each) -> (r: Result<(), MockError>)
        requires
            old(self).wf(),
        ensures
            final(self).wf(),
            final(self).order() == old(self).order(),
            final(self).cursor() == old(self).cursor(),
            final(self).captured() == old(self).captured(),
            final(self).fallback() == old(self).fallback(),
            position_of(old(self).regs(), op) >= 0 ==> r == Err::<(), MockError>(MockError::DuplicateOperation { op })
                && final(self).regs() == old(self).regs(),
            position_of(old(self).regs(), op) < 0 ==> r is Ok && final(self).regs() == old(self).regs().push(
                RegistryView { op, mode: MatchMode::Unordered, patterns: each@ },
            ),
    {
        if self.find(op).is_some() {
            return Err(MockError::DuplicateOperation { op });
        }
        let reg = Registry { op, mode: MatchMode::Unordered, patterns: each.build() };
        self.registries.push(reg);
        assert(self.regs() =~= old(self).regs().push(
            RegistryView { op, mode: MatchMode::Unordered, patterns: each@ },
        ));
        Ok(())
    }

    /// Appends the patterns of `each` to the strictly ordered registry of
    /// `op`, creating it if needed. Each takes exactly one call, at the
    /// next free position of the global sequence, in the order given.
    /// Fails, changing nothing, if `op` is registered in unordered mode.
    pub fn next_call(&mut self, op: u64, each: Each) -> (r: Result<(), MockError>)
        requires
            old(self).wf(),
        ensures
            final(self).wf(),
            final(self).cursor() == old(self).cursor(),
            final(self).captured() == old(self).captured(),
            final(self).fallback() == old(self).fallback(),
            ({
                let pos = position_of(old(self).regs(), op);
                if pos >= 0 && old(self).regs()[pos].mode == MatchMode::Unordered {
                    &&& r == Err::<(), MockError>(MockError::DuplicateOperation { op })
                    &&& final(self).regs() == old(self).regs()
                    &&& final(self).order() == old(self).order()
                } else {
                    let ri = if pos >= 0 { pos } else { old(self).regs().len() as int };
                    let base: nat = if pos >= 0 { old(self).regs()[pos].patterns.len() } else { 0 };
                    let prior = if pos >= 0 { old(self).regs()[pos].patterns } else { Seq::empty() };
                    &&& r is Ok
                    &&& final(self).regs().len() == if pos >= 0 { old(self).regs().len() } else { old(self).regs().len() + 1 }
                    &&& forall|k: int| 0 <= k < old(self).regs().len() && k != ri ==> #[trigger] final(self).regs()[k] == old(self).regs()[k]
                    &&& final(self).regs()[ri] == RegistryView {
                        op,
                        mode: MatchMode::InOrder,
                        patterns: prior + appended_patterns(each@, base),
                    }
                    &&& final(self).order() == old(self).order() + appended_slots(ri as usize, base, each@.len())
                }
            }),
    {
        let found = self.find(op);
        let ri: usize;
        match found {
            Some(i) => {
                assert(self.regs()[i as int] == self.registries@[i as int]@);
                if self.registries[i].mode == MatchMode::Unordered {
                    return Err(MockError::DuplicateOperation { op });
                }
                ri = i;
            },
            None => {
                self.registries.push(Registry { op, mode: MatchMode::InOrder, patterns: Vec::new() });
                ri = self.registries.len() - 1;
                assert(self.regs() =~= old(self).regs().push(
                    RegistryView { op, mode: MatchMode::InOrder, patterns: Seq::empty() },
                ));
            },
        }
        let ghost mid = self.regs();
        let ghost mid_order = self.order();
        let ghost base: nat = mid[ri as int].patterns.len();
        let ghost prior = mid[ri as int].patterns;
        let mut pats = each.build();
        let ghost all = pats@;
        let ghost mut j: nat = 0;
        while pats.len() > 0
            invariant
                self.wf(),
                ri < self.regs().len(),
                self.regs().len() == mid.len(),
                forall|k: int| 0 <= k < mid.len() && k != ri ==> #[trigger] self.regs()[k] == mid[k],
                self.regs()[ri as int].op == op,
                self.regs()[ri as int].mode == MatchMode::InOrder,
                j <= all.len(),
                prior.len() == base,
                pats@ == all.subrange(j as int, all.len() as int),
                self.regs()[ri as int].patterns == prior + appended_patterns(all.subrange(0, j as int), base),
                self.order() == mid_order + appended_slots(ri, base, j),
                self.cursor() == old(self).cursor(),
                self.captured() == old(self).captured(),
                self.fallback() == old(self).fallback(),
            decreases pats@.len(),
        {
            let ghost before = self.registries@;
            let ghost before_regs = self.regs();
            assert(appended_patterns(all.subrange(0, j as int), base).len() == j);
            assert(prior.len() == base);
            assert(before[ri as int].patterns@.len() == base + j);
            let ghost before_order = self.order@;
            assert(self.regs()[ri as int] == before[ri as int]@);
            let ghost pats_head = pats@[0];
            let mut p = pats.remove(0);
            let idx = self.registries[ri].patterns.len();
            p.index = idx;
            p.counter = CallCounter::new(CountExpectation::Exactly(1));
            let ghost newp = p;
            assert(all[j as int] == pats_head);
            assert(idx == before[ri as int].patterns@.len());
            assert(idx == base + j);
            assert(newp == in_order_pattern(all[j as int], (base + j) as usize));
            self.registries[ri].patterns.push(p);
            self.order.push((ri, idx));
            assert(self.registries@[ri as int].patterns@ == before[ri as int].patterns@.push(newp));
            assert forall|k: int| 0 <= k < mid.len() && k != ri implies #[trigger] self.regs()[k] == mid[k] by {
                assert(self.registries@[k] == before[k]);
                assert(self.regs()[k] == self.registries@[k]@);
                assert(before_regs[k] == before[k]@);
            }
            assert(self.order@ == before_order.push((ri, idx)));
            proof {
                j = j + 1;
                assert(all.subrange(0, j as int) =~= all.subrange(0, j - 1).push(all[j - 1]));
                assert(pats@ =~= all.subrange(j as int, all.len() as int));
            }
            assert(self.regs()[ri as int].patterns =~= prior + appended_patterns(all.subrange(0, j as int), base));
            assert(self.order() =~= mid_order + appended_slots(ri, base, j));
            assert(self.wf());
        }
        proof {
            assert(all.subrange(0, j as int) =~= all);
        }
        Ok(())
    }

    /// Which way a call of `op` with `input` goes in this state.
    pub open spec fn decide(&self, op: u64, input: Seq<char>) -> Decision {
        let ri = position_of(self.regs(), op);
        if ri < 0 {
            Decision::Unmatched(-1)
        } else if self.regs()[ri].mode == MatchMode::Unordered {
            match selection(self.regs()[ri].patterns, input) {
                Selection::Selected(pi) => Decision::Respond(ri, pi as int),
                Selection::Exhausted(pi) => Decision::Exhausted(ri, pi as int),
                Selection::Unmatched => Decision::Unmatched(ri),
            }
        } else if self.cursor() < self.order().len() && self.order()[self.cursor() as int].0 == ri
            && accepts(self.regs()[ri].patterns[self.order()[self.cursor() as int].1 as int].matcher, input) {
            Decision::Respond(ri, self.order()[self.cursor() as int].1 as int)
        } else {
            Decision::OutOfOrder(ri)
        }
    }

    /// The operation and pattern due at the cursor, if any.
    pub open spec fn expected_next(&self) -> Option<(u64, usize)> {
        if self.cursor() < self.order().len() {
            let (ri, pi) = self.order()[self.cursor() as int];
            Some((self.regs()[ri as int].op, pi))
        } else {
            None
        }
    }

    /// Whether `r` is what a call of `op` with `input` returns in this
    /// state.
    pub open spec fn dispatch_result(&self, op: u64, input: String, r: Result<Outcome, MockError>) -> bool {
        match self.decide(op, input@) {
            Decision::Respond(ri, pi) => {
                let p = self.regs()[ri].patterns[pi];
                if p.counter.actual == usize::MAX {
                    r == Err::<Outcome, MockError>(MockError::CountOverflow { op, pattern: pi as usize })
                } else {
                    match response_of(p.responder, input@) {
                        Response::Output(v) => r == Ok::<Outcome, MockError>(Outcome::Output(v)),
                        Response::Missing => r == Err::<Outcome, MockError>(
                            MockError::NoOutput { op, pattern: pi as usize },
                        ),
                        Response::Failure(m) => r == Err::<Outcome, MockError>(
                            MockError::ExplicitFailure { op, pattern: pi as usize, message: m },
                        ),
                    }
                }
            },
            Decision::Exhausted(ri, pi) => r == Err::<Outcome, MockError>(
                MockError::Exhausted { op, pattern: pi as usize },
            ),
            Decision::OutOfOrder(ri) => r == Err::<Outcome, MockError>(
                MockError::OrderViolation { op, position: self.cursor() as usize, expected: self.expected_next() },
            ),
            Decision::Unmatched(ri) => match self.fallback() {
                FallbackMode::Error => match r {
                    Err(MockError::NoMatch { op: o, input: i, patterns: ps }) => {
                        &&& o == op
                        &&& i == input
                        &&& ps@ == if ri >= 0 {
                            self.regs()[ri].patterns.map_values(|p: Pattern| p.matcher)
                        } else {
                            Seq::empty()
                        }
                    },
                    _ => false,
                },
                FallbackMode::Delegate => r == Ok::<Outcome, MockError>(Outcome::Delegate),
                FallbackMode::Ignore => r == Ok::<Outcome, MockError>(Outcome::Ignored),
            },
        }
    }

    /// Whether the call took its pattern: it was matched, and the
    /// pattern's counter had room for one more use.
    pub open spec fn dispatch_counts(&self, op: u64, input: Seq<char>) -> bool {
        match self.decide(op, input) {
            Decision::Respond(ri, pi) => self.regs()[ri].patterns[pi].counter.actual < usize::MAX,
            _ => false,
        }
    }

    /// Uses pattern `pi` of registry `ri` once, then invokes its responder.
    fn invoke(&mut self, ri: usize, pi: usize, op: u64, input: &String) -> (r: Result<Outcome, MockError>)
        requires
            old(self).wf(),
            ri < old(self).regs().len(),
            pi < old(self).regs()[ri as int].patterns.len(),
        ensures
            final(self).wf(),
            final(self).order() == old(self).order(),
            final(self).cursor() == old(self).cursor(),
            final(self).captured() == old(self).captured(),
            final(self).fallback() == old(self).fallback(),
            ({
                let p = old(self).regs()[ri as int].patterns[pi as int];
                if p.counter.actual == usize::MAX {
                    &&& final(self).regs() == old(self).regs()
                    &&& r == Err::<Outcome, MockError>(MockError::CountOverflow { op, pattern: pi })
                } else {
                    &&& final(self).regs() == old(self).regs().update(ri as int, ticked_registry(old(self).regs()[ri as int], pi as int))
                    &&& match response_of(p.responder, input@) {
                        Response::Output(v) => r == Ok::<Outcome, MockError>(Outcome::Output(v)),
                        Response::Missing => r == Err::<Outcome, MockError>(MockError::NoOutput { op, pattern: pi }),
                        Response::Failure(m) => r == Err::<Outcome, MockError>(
                            MockError::ExplicitFailure { op, pattern: pi, message: m },
                        ),
                    }
                }
            }),
    {
        let ghost before = self.registries@;
        assert(self.regs()[ri as int] == before[ri as int]@);
        let ok = self.registries[ri].patterns[pi].counter.tick();
        assert forall|k: int| 0 <= k < before.len() && k != ri implies #[trigger] self.registries@[k] == before[k] by {}
        if !ok {
            assert(self.registries@[ri as int].patterns@ =~= before[ri as int].patterns@);
            assert(self.regs() =~= old(self).regs());
            return Err(MockError::CountOverflow { op, pattern: pi });
        }
        assert(self.registries@[ri as int].patterns@ =~= before[ri as int].patterns@.update(pi as int, ticked(before[ri as int].patterns@[pi as int])));
        assert(self.regs() =~= old(self).regs().update(ri as int, ticked_registry(old(self).regs()[ri as int], pi as int)));
        match self.registries[ri].patterns[pi].responder.respond(input) {
            Response::Output(v) => Ok(Outcome::Output(v)),
            Response::Missing => Err(MockError::NoOutput { op, pattern: pi }),
            Response::Failure(m) => Err(MockError::ExplicitFailure { op, pattern: pi, message: m }),
        }
    }

    /// The result of a call that no pattern takes.
    fn unmatched(&self, op: u64, input: &String, ri: Option<usize>) -> (r: Result<Outcome, MockError>)
        requires
            ri matches Some(i) ==> i < self.regs().len(),
        ensures
            match self.fallback() {
                FallbackMode::Error => match r {
                    Err(MockError::NoMatch { op: o, input: i, patterns: ps }) => {
                        &&& o == op
                        &&& i == *input
                        &&& ps@ == match ri {
                            Some(k) => self.regs()[k as int].patterns.map_values(|p: Pattern| p.matcher),
                            None => Seq::empty(),
                        }
                    },
                    _ => false,
                },
                FallbackMode::Delegate => r == Ok::<Outcome, MockError>(Outcome::Delegate),
                FallbackMode::Ignore => r == Ok::<Outcome, MockError>(Outcome::Ignored),
            },
    {
        match self.fallback {
            FallbackMode::Error => {
                let patterns = match ri {
                    Some(k) => {
                        assert(self.regs()[k as int] == self.registries@[k as int]@);
                        self.registries[k].matchers()
                    },
                    None => Vec::new(),
                };
                Err(MockError::NoMatch { op, input: input.clone(), patterns })
            },
            FallbackMode::Delegate => Ok(Outcome::Delegate),
            FallbackMode::Ignore => Ok(Outcome::Ignored),
        }
    }

    /// Dispatches a call of `op` with `input`.
    ///
    /// Unordered operations take the first accepting, non-exhausted
    /// pattern. Strictly ordered operations take the pattern due at the
    /// cursor, which then advances; any other call is an ordering
    /// violation. A call that no pattern takes follows the fallback mode.
    /// The taken pattern's counter grows by one and its responder gives
    /// the result. When the call fails away from the thread that built
    /// the session (`on_origin_thread` false), the failure is also
    /// captured for verification to report.
    pub fn call(&mut self, op: u64, input: &String, on_origin_thread: bool) -> (r: Result<Outcome, MockError>)
        requires
            old(self).wf(),
        ensures
            final(self).wf(),
            final(self).order() == old(self).order(),
            final(self).fallback() == old(self).fallback(),
            old(self).dispatch_result(op, *input, r),
            old(self).dispatch_counts(op, input@) ==> ({
                let (ri, pi) = match old(self).decide(op, input@) {
                    Decision::Respond(ri, pi) => (ri, pi),
                    _ => (0, 0),
                };
                &&& final(self).regs() == old(self).regs().update(ri, ticked_registry(old(self).regs()[ri], pi))
                &&& final(self).cursor() == if old(self).regs()[ri].mode == MatchMode::InOrder {
                    old(self).cursor() + 1
                } else {
                    old(self).cursor()
                }
            }),
            !old(self).dispatch_counts(op, input@) ==> final(self).regs() == old(self).regs()
                && final(self).cursor() == old(self).cursor(),
            (on_origin_thread || r is Ok) ==> final(self).captured() == old(self).captured(),
            !on_origin_thread ==> (r matches Err(e) ==> ({
                &&& final(self).captured().len() == old(self).captured().len() + 1
                &&& final(self).captured().drop_last() == old(self).captured()
                &&& same_error(final(self).captured().last(), e)
            })),
    {
        let r = match self.find(op) {
            None => self.unmatched(op, input, None),
            Some(ri) => {
                assert(self.regs()[ri as int] == self.registries@[ri as int]@);
                if self.registries[ri].mode == MatchMode::Unordered {
                    let pattern_count: usize = self.registries[ri].patterns.len();
                    match self.registries[ri].select(input) {
                        Selection::Selected(pi) => {
                            proof {
                                assert(pattern_count == self.regs()[ri as int].patterns.len());
                                crate::registry::lemma_first_match_wins(self.regs()[ri as int].patterns, input@);
                            }
                            self.invoke(ri, pi, op, input)
                        },
                        Selection::Exhausted(pi) => Err(MockError::Exhausted { op, pattern: pi }),
                        Selection::Unmatched => self.unmatched(op, input, Some(ri)),
                    }
                } else {
                    let c = self.cursor;
                    if c < self.order.len() && self.order[c].0 == ri
                        && self.registries[ri].patterns[self.order[c].1].matcher.matches(input) {
                        let pi = self.order[c].1;
                        let room = self.registries[ri].patterns[pi].counter.actual < usize::MAX;
                        let res = self.invoke(ri, pi, op, input);
                        if room {
                            self.cursor = c + 1;
                        }
                        res
                    } else {
                        let expected = if c < self.order.len() {
                            let (eri, epi) = self.order[c];
                            assert(self.regs()[eri as int] == self.registries@[eri as int]@);
                            Some((self.registries[eri].op, epi))
                        } else {
                            None
                        };
                        Err(MockError::OrderViolation { op, position: c, expected })
                    }
                }
            },
        };
        if !on_origin_thread {
            if let Err(e) = &r {
                self.captured.push(e.duplicate());
            }
        }
        r
    }

    /// Whether `r` is what verification of this state reports: the
    /// captured failures if there are any, else every unmet expectation.
    pub open spec fn verify_result(&self, r: Result<(), Vec<MockError>>) -> bool {
        if self.captured().len() > 0 {
            r matches Err(es) && same_errors(es@, self.captured())
        } else if unmet_all(self.regs()).len() > 0 {
            r matches Err(es) && es@ == unmet_all(self.regs())
        } else {
            r is Ok
        }
    }

    /// Verifies the scenario: reports the failures captured off the
    /// originating thread, if any; otherwise every pattern whose count
    /// does not meet its expectation, all in one report. Changes nothing,
    /// so running it again gives the same report.
    pub fn verify(&self) -> (r: Result<(), Vec<MockError>>)
        ensures
            self.verify_result(r),
    {
        if self.captured.len() > 0 {
            return Err(copy_errors(&self.captured));
        }
        let mut errs: Vec<MockError> = Vec::new();
        let mut ri: usize = 0;
        while ri < self.registries.len()
            invariant
                ri <= self.regs().len(),
                self.regs().len() == self.registries@.len(),
                errs@ == unmet_all(self.regs().subrange(0, ri as int)),
            decreases self.registries@.len() - ri,
        {
            let reg = &self.registries[ri];
            assert(self.regs()[ri as int] == reg@);
            let ghost head = errs@;
            let mut pi: usize = 0;
            while pi < reg.patterns.len()
                invariant
                    pi <= reg.patterns@.len(),
                    errs@ == head + unmet_in(reg.op, reg.patterns@.subrange(0, pi as int)),
                decreases reg.patterns@.len() - pi,
            {
                let c = reg.patterns[pi].counter;
                assert(reg.patterns@.subrange(0, pi + 1).drop_last() =~= reg.patterns@.subrange(0, pi as int));
                if !c.is_satisfied() {
                    errs.push(MockError::UnmetExpectation {
                        op: reg.op,
                        pattern: pi,
                        actual: c.actual,
                        expectation: c.expectation,
                    });
                }
                pi = pi + 1;
                assert(errs@ =~= head + unmet_in(reg.op, reg.patterns@.subrange(0, pi as int)));
            }
            assert(reg.patterns@.subrange(0, pi as int) =~= reg.patterns@);
            ri = ri + 1;
            assert(self.regs().subrange(0, ri as int).drop_last() =~= self.regs().subrange(0, ri - 1));
            assert(errs@ =~= unmet_all(self.regs().subrange(0, ri as int)));
        }
        assert(self.regs().subrange(0, ri as int) =~= self.regs());
        if errs.len() > 0 {
            Err(errs)
        } else {
            Ok(())
        }
    }

    /// How many calls pattern `pattern` of `op` has taken so far; `None`
    /// if `op` has no registry or no such pattern.
    pub fn use_count(&self, op: u64, pattern: usize) -> (r: Option<usize>)
        ensures
            ({
                let ri = position_of(self.regs(), op);
                if ri >= 0 && pattern < self.regs()[ri].patterns.len() {
                    r == Some(self.regs()[ri].patterns[pattern as int].counter.actual)
                } else {
                    r is None
                }
            }),
    {
        match self.find(op) {
            None => None,
            Some(ri) => {
                assert(self.regs()[ri as int] == self.registries@[ri as int]@);
                if pattern < self.registries[ri].patterns.len() {
                    Some(self.registries[ri].patterns[pattern].counter.actual)
                } else {
                    None
                }
            },
        }
    }
}

} // verus!
