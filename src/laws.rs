//! Laws of the engine that relate dispatch, counting and verification.
use vstd::prelude::*;

use crate::counter::{expectation_exhausted, expectation_met, CountExpectation};
use crate::error::{same_error, same_errors, MockError};
use crate::pattern::{accepts, Pattern, Responder};
use crate::registry::{MatchMode, RegistryView};
use crate::session::{all_met, position_of, unmet_all, unmet_in, Decision, Outcome, Session};

verus! {

proof fn lemma_unmet_in_empty(op: u64, pats: Seq<Pattern>)
    ensures
        unmet_in(op, pats).len() == 0 <==> forall|pi: int| 0 <= pi < pats.len() ==> expectation_met(
            #[trigger] pats[pi].counter.expectation,
            pats[pi].counter.actual as nat,
        ),
    decreases pats.len(),
{
    if pats.len() > 0 {
        let init = pats.drop_last();
        lemma_unmet_in_empty(op, init);
        let last = pats.len() - 1;
        let all = forall|pi: int| 0 <= pi < pats.len() ==> expectation_met(
            #[trigger] pats[pi].counter.expectation,
            pats[pi].counter.actual as nat,
        );
        if all {
            assert forall|pi: int| 0 <= pi < init.len() implies expectation_met(
                #[trigger] init[pi].counter.expectation,
                init[pi].counter.actual as nat,
            ) by {
                assert(init[pi] == pats[pi]);
                assert(expectation_met(pats[pi].counter.expectation, pats[pi].counter.actual as nat));
            }
            assert(expectation_met(pats[last].counter.expectation, pats[last].counter.actual as nat));
        }
        if unmet_in(op, pats).len() == 0 {
            assert(expectation_met(pats[last].counter.expectation, pats[last].counter.actual as nat));
            assert forall|pi: int| 0 <= pi < pats.len() implies expectation_met(
                #[trigger] pats[pi].counter.expectation,
                pats[pi].counter.actual as nat,
            ) by {
                if pi < last {
                    assert(init[pi] == pats[pi]);
                    assert(expectation_met(init[pi].counter.expectation, init[pi].counter.actual as nat));
                }
            }
        }
    }
}

proof fn lemma_unmet_all_empty(regs: Seq<RegistryView>)
    ensures
        unmet_all(regs).len() == 0 <==> all_met(regs),
    decreases regs.len(),
{
    if regs.len() > 0 {
        let init = regs.drop_last();
        lemma_unmet_all_empty(init);
        lemma_unmet_in_empty(regs.last().op, regs.last().patterns);
        assert forall|ri: int| 0 <= ri < init.len() implies #[trigger] init[ri] == regs[ri] by {}
        if all_met(regs) {
            assert forall|ri: int, pi: int| 0 <= ri < init.len() && 0 <= pi < init[ri].patterns.len() implies expectation_met(
                #[trigger] init[ri].patterns[pi].counter.expectation,
                init[ri].patterns[pi].counter.actual as nat,
            ) by {
                assert(init[ri] == regs[ri]);
                assert(expectation_met(regs[ri].patterns[pi].counter.expectation, regs[ri].patterns[pi].counter.actual as nat));
            }
            let last = regs.len() - 1;
            assert forall|pi: int| 0 <= pi < regs.last().patterns.len() implies expectation_met(
                #[trigger] regs.last().patterns[pi].counter.expectation,
                regs.last().patterns[pi].counter.actual as nat,
            ) by {
                assert(expectation_met(regs[last].patterns[pi].counter.expectation, regs[last].patterns[pi].counter.actual as nat));
            }
        }
        if unmet_all(regs).len() == 0 {
            assert forall|ri: int, pi: int| 0 <= ri < regs.len() && 0 <= pi < regs[ri].patterns.len() implies expectation_met(
                #[trigger] regs[ri].patterns[pi].counter.expectation,
                regs[ri].patterns[pi].counter.actual as nat,
            ) by {
                if ri < init.len() {
                    assert(init[ri] == regs[ri]);
                    assert(expectation_met(init[ri].patterns[pi].counter.expectation, init[ri].patterns[pi].counter.actual as nat));
                } else {
                    assert(regs[ri] == regs.last());
                }
            }
        }
    }
}

/// With no failure captured, verification passes exactly when every
/// pattern's count meets its expectation: a pattern expected exactly N
/// times passes only with N uses, one expected at least N times with N or
/// more; anything else makes verification fail.
pub proof fn lemma_verification_passes_iff_counts_met(s: Session, r: Result<(), Vec<MockError>>)
    requires
        s.captured().len() == 0,
        s.verify_result(r),
    ensures
        r is Ok <==> all_met(s.regs()),
        all_met(s.regs()) <==> forall|ri: int, pi: int|
            0 <= ri < s.regs().len() && 0 <= pi < s.regs()[ri].patterns.len() ==> {
                let c = #[trigger] s.regs()[ri].patterns[pi].counter;
                match c.expectation {
                    CountExpectation::Unconstrained => true,
                    CountExpectation::Exactly(n) => c.actual == n,
                    CountExpectation::AtLeast(n) => c.actual >= n,
                }
            },
{
    lemma_unmet_all_empty(s.regs());
    assert(all_met(s.regs()) <==> forall|ri: int, pi: int|
        0 <= ri < s.regs().len() && 0 <= pi < s.regs()[ri].patterns.len() ==> {
            let c = #[trigger] s.regs()[ri].patterns[pi].counter;
            match c.expectation {
                CountExpectation::Unconstrained => true,
                CountExpectation::Exactly(n) => c.actual == n,
                CountExpectation::AtLeast(n) => c.actual >= n,
            }
        });
}

/// A pattern of an unordered operation that is expected exactly N times
/// and has been used N times no longer takes calls: a further call goes to
/// a later pattern, or is reported as exhausted or unmatched. A pattern
/// expected at least N times is never exhausted.
pub proof fn lemma_exhausted_pattern_not_taken(s: Session, op: u64, input: Seq<char>, pi: int)
    requires
        position_of(s.regs(), op) >= 0,
        s.regs()[position_of(s.regs(), op)].mode == MatchMode::Unordered,
        0 <= pi < s.regs()[position_of(s.regs(), op)].patterns.len(),
        s.regs()[position_of(s.regs(), op)].patterns.len() <= usize::MAX,
    ensures
        ({
            let ri = position_of(s.regs(), op);
            let c = s.regs()[ri].patterns[pi].counter;
            &&& (c.expectation matches CountExpectation::Exactly(n) && c.actual >= n) ==> s.decide(op, input) != Decision::Respond(ri, pi)
            &&& c.expectation is AtLeast ==> !expectation_exhausted(c.expectation, c.actual as nat)
        }),
{
    let ri = position_of(s.regs(), op);
    let pats = s.regs()[ri].patterns;
    crate::registry::lemma_first_match_wins(pats, input);
}

/// A call of a strictly ordered operation is taken only when it is the
/// call due at the cursor of the global sequence: the due pattern belongs
/// to this operation and accepts the input. Any other call is an ordering
/// violation at the cursor's position that names the operation and
/// pattern that were due.
pub proof fn lemma_in_order_follows_sequence(s: Session, op: u64, input: String, r: Result<Outcome, MockError>)
    requires
        s.wf(),
        position_of(s.regs(), op) >= 0,
        s.regs()[position_of(s.regs(), op)].mode == MatchMode::InOrder,
        s.dispatch_result(op, input, r),
    ensures
        ({
            let ri = position_of(s.regs(), op);
            let c = s.cursor() as int;
            let due = c < s.order().len() && s.order()[c].0 == ri
                && accepts(s.regs()[ri].patterns[s.order()[c].1 as int].matcher, input@);
            &&& due ==> s.decide(op, input@) == Decision::Respond(ri, s.order()[c].1 as int)
            &&& !due ==> r == Err::<Outcome, MockError>(
                MockError::OrderViolation { op, position: c as usize, expected: s.expected_next() },
            )
            &&& c < s.order().len() ==> s.expected_next() == Some(
                (s.regs()[s.order()[c].0 as int].op, s.order()[c].1),
            )
        }),
{
}

/// A failure captured off the originating thread is reported by the next
/// verification, as its last report, ahead of any count check.
pub proof fn lemma_captured_failure_reported(
    before: Session,
    after: Session,
    e: MockError,
    r: Result<(), Vec<MockError>>,
)
    requires
        after.captured().len() == before.captured().len() + 1,
        after.captured().drop_last() == before.captured(),
        same_error(after.captured().last(), e),
        after.verify_result(r),
    ensures
        r matches Err(es) && es@.len() == after.captured().len() && same_error(es@.last(), e),
{
    let es = r->Err_0;
    assert(same_error(es@[es@.len() - 1], after.captured()[after.captured().len() - 1]));
}

/// Verification reports the same thing each time it runs on a session:
/// it passes both times or fails both times, with the same reports.
pub proof fn lemma_verify_idempotent(s: Session, r1: Result<(), Vec<MockError>>, r2: Result<(), Vec<MockError>>)
    requires
        s.verify_result(r1),
        s.verify_result(r2),
    ensures
        r1 is Ok <==> r2 is Ok,
        r1 matches Err(a) ==> r2 matches Err(b) && same_errors(a@, b@),
{
}

/// A call taken by a pattern configured to fail with a message fails with
/// exactly that message, naming the operation and the pattern.
pub proof fn lemma_explicit_failure_message(
    s: Session,
    op: u64,
    input: String,
    ri: int,
    pi: int,
    message: String,
    r: Result<Outcome, MockError>,
)
    requires
        s.decide(op, input@) == Decision::Respond(ri, pi),
        s.regs()[ri].patterns[pi].responder == Responder::Panics(message),
        s.regs()[ri].patterns[pi].counter.actual < usize::MAX,
        s.dispatch_result(op, input, r),
    ensures
        r == Err::<Outcome, MockError>(MockError::ExplicitFailure { op, pattern: pi as usize, message }),
{
}

} // verus!
