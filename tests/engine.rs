use unimock::builders::Each;
use unimock::counter::{CallCounter, CountExpectation};
use unimock::error::MockError;
use unimock::output::{determine_mixed_ownership, BorrowInfo, OutputOwnership};
use unimock::pattern::{Matcher, Responder};
use unimock::session::{FallbackMode, Outcome, Session};

const OP_A: u64 = 1;
const OP_B: u64 = 2;

fn s(x: &str) -> String {
    x.to_string()
}

fn eq(x: &str) -> Matcher {
    Matcher::Equals(s(x))
}

fn session_with(op: u64, each: Each) -> Session {
    let mut session = Session::new(FallbackMode::Error);
    session.add_operation(op, each).unwrap();
    session
}

#[test]
fn exactly_n_calls_pass_verification() {
    let mut session = session_with(OP_A, Each::new().call(Matcher::Any).returns_value(5).times(3).each());
    for _ in 0..3 {
        assert_eq!(session.call(OP_A, &s("a"), true).unwrap(), Outcome::Output(5));
    }
    assert!(session.verify().is_ok());
}

#[test]
fn fewer_than_exactly_n_calls_fail_verification() {
    let mut session = session_with(OP_A, Each::new().call(Matcher::Any).returns_value(5).times(3).each());
    session.call(OP_A, &s("a"), true).unwrap();
    session.call(OP_A, &s("a"), true).unwrap();
    let errs = session.verify().unwrap_err();
    assert_eq!(errs.len(), 1);
    assert!(matches!(
        errs[0],
        MockError::UnmetExpectation { op: OP_A, pattern: 0, actual: 2, expectation: CountExpectation::Exactly(3) }
    ));
}

#[test]
fn call_beyond_exactly_n_is_exhausted() {
    let mut session = session_with(OP_A, Each::new().call(Matcher::Any).returns_value(5).once().each());
    assert_eq!(session.call(OP_A, &s("a"), true).unwrap(), Outcome::Output(5));
    let err = session.call(OP_A, &s("a"), true).unwrap_err();
    assert!(matches!(err, MockError::Exhausted { op: OP_A, pattern: 0 }));
    assert!(session.verify().is_ok());
}

#[test]
fn exhausted_pattern_lets_a_later_pattern_take_the_call() {
    let each = Each::new().call(eq("a")).returns_value(1).once().each().call(Matcher::Any).returns_value(2).each();
    let mut session = session_with(OP_A, each);
    assert_eq!(session.call(OP_A, &s("a"), true).unwrap(), Outcome::Output(1));
    assert_eq!(session.call(OP_A, &s("a"), true).unwrap(), Outcome::Output(2));
    assert!(session.verify().is_ok());
}

#[test]
fn at_least_n_passes_at_n_and_above() {
    for calls in 2..5 {
        let mut session = session_with(OP_A, Each::new().call(Matcher::Any).returns_value(0).at_least(2).each());
        for _ in 0..calls {
            session.call(OP_A, &s("q"), true).unwrap();
        }
        assert!(session.verify().is_ok());
    }
}

#[test]
fn at_least_n_fails_below_n() {
    let mut session = session_with(OP_A, Each::new().call(Matcher::Any).returns_value(0).at_least(2).each());
    session.call(OP_A, &s("q"), true).unwrap();
    let errs = session.verify().unwrap_err();
    assert!(matches!(
        errs[0],
        MockError::UnmetExpectation { op: OP_A, pattern: 0, actual: 1, expectation: CountExpectation::AtLeast(2) }
    ));
}

#[test]
fn never_fails_verification_once_called() {
    let mut session = session_with(OP_A, Each::new().call(eq("z")).returns_value(0).never().each().call(Matcher::Any).returns_value(3).each());
    assert_eq!(session.call(OP_A, &s("z"), true).unwrap(), Outcome::Output(3));
    assert!(session.verify().is_ok());
}

#[test]
fn first_registered_match_wins() {
    let each = Each::new().call(eq("a")).returns_value(1).each().call(Matcher::Any).returns_value(2).each();
    let mut session = session_with(OP_A, each);
    assert_eq!(session.call(OP_A, &s("a"), true).unwrap(), Outcome::Output(1));
    assert_eq!(session.call(OP_A, &s("b"), true).unwrap(), Outcome::Output(2));
}

#[test]
fn catch_all_first_shadows_specific_pattern() {
    let each = Each::new().call(Matcher::Any).returns_value(2).each().call(eq("a")).returns_value(1).each();
    let mut session = session_with(OP_A, each);
    assert_eq!(session.call(OP_A, &s("a"), true).unwrap(), Outcome::Output(2));
}

#[test]
fn three_patterns_skip_exhausted_in_order() {
    let each = Each::new()
        .call(eq("a")).returns_value(1).once().each()
        .call(eq("a")).returns_value(2).once().each()
        .call(Matcher::Any).returns_value(3).each();
    let mut session = session_with(OP_A, each);
    assert_eq!(session.call(OP_A, &s("a"), true).unwrap(), Outcome::Output(1));
    assert_eq!(session.call(OP_A, &s("a"), true).unwrap(), Outcome::Output(2));
    assert_eq!(session.call(OP_A, &s("a"), true).unwrap(), Outcome::Output(3));
}

#[test]
fn registry_selection_reports_exhaustion() {
    let mut session = session_with(OP_A, Each::new().call(eq("a")).returns_value(1).never().each());
    let err = session.call(OP_A, &s("a"), true).unwrap_err();
    assert!(matches!(err, MockError::Exhausted { op: OP_A, pattern: 0 }));
}

fn strict_session() -> Session {
    let mut session = Session::new(FallbackMode::Error);
    session.next_call(OP_A, Each::new().call(eq("1")).returns_value(10).each()).unwrap();
    session.next_call(OP_B, Each::new().call(eq("1")).returns_value(20).each()).unwrap();
    session.next_call(OP_A, Each::new().call(eq("2")).returns_value(30).each()).unwrap();
    session
}

#[test]
fn strict_order_in_sequence_passes() {
    let mut session = strict_session();
    assert_eq!(session.call(OP_A, &s("1"), true).unwrap(), Outcome::Output(10));
    assert_eq!(session.call(OP_B, &s("1"), true).unwrap(), Outcome::Output(20));
    assert_eq!(session.call(OP_A, &s("2"), true).unwrap(), Outcome::Output(30));
    assert!(session.verify().is_ok());
}

#[test]
fn strict_order_violation_names_expected_pattern() {
    let mut session = strict_session();
    let err = session.call(OP_B, &s("1"), true).unwrap_err();
    assert!(matches!(
        err,
        MockError::OrderViolation { op: OP_B, position: 0, expected: Some((OP_A, 0)) }
    ));
}

#[test]
fn strict_order_past_the_end_expects_nothing() {
    let mut session = Session::new(FallbackMode::Error);
    session.next_call(OP_A, Each::new().call(Matcher::Any).returns_value(1).each()).unwrap();
    session.call(OP_A, &s("x"), true).unwrap();
    let err = session.call(OP_A, &s("x"), true).unwrap_err();
    assert!(matches!(err, MockError::OrderViolation { op: OP_A, position: 1, expected: None }));
}

#[test]
fn strict_order_uncalled_pattern_fails_verification() {
    let mut session = strict_session();
    session.call(OP_A, &s("1"), true).unwrap();
    let errs = session.verify().unwrap_err();
    assert_eq!(errs.len(), 2);
    assert!(matches!(errs[0], MockError::UnmetExpectation { op: OP_A, pattern: 1, actual: 0, .. }));
    assert!(matches!(errs[1], MockError::UnmetExpectation { op: OP_B, pattern: 0, actual: 0, .. }));
}

#[test]
fn mixing_modes_for_one_operation_is_refused() {
    let mut session = session_with(OP_A, Each::new().call(Matcher::Any).each());
    let err = session.next_call(OP_A, Each::new().call(Matcher::Any).each()).unwrap_err();
    assert!(matches!(err, MockError::DuplicateOperation { op: OP_A }));
    let err = session.add_operation(OP_A, Each::new()).unwrap_err();
    assert!(matches!(err, MockError::DuplicateOperation { op: OP_A }));
}

#[test]
fn explicit_failure_carries_message() {
    let mut session = session_with(OP_A, Each::new().call(Matcher::Any).panics(s("boom now")).each());
    match session.call(OP_A, &s("x"), true).unwrap_err() {
        MockError::ExplicitFailure { op, pattern, message } => {
            assert_eq!(op, OP_A);
            assert_eq!(pattern, 0);
            assert_eq!(message, "boom now");
        }
        other => panic!("unexpected {other:?}"),
    }
}

#[test]
fn off_thread_failure_is_captured_and_reported() {
    let mut session = session_with(OP_A, Each::new().call(Matcher::Any).panics(s("off")).each());
    assert!(session.call(OP_A, &s("x"), false).is_err());
    let errs = session.verify().unwrap_err();
    assert_eq!(errs.len(), 1);
    assert!(matches!(&errs[0], MockError::ExplicitFailure { message, .. } if message == "off"));
}

#[test]
fn origin_thread_failure_is_not_captured() {
    let mut session = session_with(OP_A, Each::new().call(Matcher::Any).panics(s("here")).each());
    assert!(session.call(OP_A, &s("x"), true).is_err());
    assert!(session.verify().is_ok());
}

#[test]
fn captured_failure_takes_priority_over_counts() {
    let each = Each::new().call(eq("a")).returns_value(1).once().each();
    let mut session = session_with(OP_A, each);
    assert!(session.call(OP_A, &s("b"), false).is_err());
    let errs = session.verify().unwrap_err();
    assert_eq!(errs.len(), 1);
    assert!(matches!(&errs[0], MockError::NoMatch { op: OP_A, .. }));
}

#[test]
fn verify_twice_gives_the_same_report() {
    let mut session = session_with(OP_A, Each::new().call(Matcher::Any).returns_value(1).times(2).each());
    session.call(OP_A, &s("x"), true).unwrap();
    let first = session.verify().unwrap_err();
    let second = session.verify().unwrap_err();
    assert_eq!(format!("{first:?}"), format!("{second:?}"));
    let mut ok = session_with(OP_A, Each::new().call(Matcher::Any).returns_value(1).each());
    ok.call(OP_A, &s("x"), true).unwrap();
    assert!(ok.verify().is_ok());
    assert!(ok.verify().is_ok());
}

#[test]
fn single_pattern_scenario() {
    let mut session = session_with(OP_A, Each::new().call(eq("x")).returns_value(1).once().each());
    assert_eq!(session.use_count(OP_A, 0), Some(0));
    assert_eq!(session.call(OP_A, &s("x"), true).unwrap(), Outcome::Output(1));
    assert_eq!(session.use_count(OP_A, 0), Some(1));
    assert!(session.verify().is_ok());
    assert_eq!(session.use_count(OP_A, 1), None);
    assert_eq!(session.use_count(OP_B, 0), None);
}

#[test]
fn single_pattern_scenario_no_match_names_pattern() {
    let mut session = session_with(OP_A, Each::new().call(eq("x")).returns_value(1).once().each());
    match session.call(OP_A, &s("y"), true).unwrap_err() {
        MockError::NoMatch { op, input, patterns } => {
            assert_eq!(op, OP_A);
            assert_eq!(input, "y");
            assert_eq!(patterns.len(), 1);
            assert!(matches!(&patterns[0], Matcher::Equals(v) if v == "x"));
        }
        other => panic!("unexpected {other:?}"),
    }
}

#[test]
fn unregistered_operation_follows_fallback() {
    let mut strict = Session::new(FallbackMode::Error);
    assert!(matches!(
        strict.call(OP_B, &s("x"), true).unwrap_err(),
        MockError::NoMatch { op: OP_B, ref patterns, .. } if patterns.is_empty()
    ));
    let mut delegate = Session::new(FallbackMode::Delegate);
    assert_eq!(delegate.call(OP_B, &s("x"), true).unwrap(), Outcome::Delegate);
    let mut ignore = Session::new(FallbackMode::Ignore);
    assert_eq!(ignore.call(OP_B, &s("x"), true).unwrap(), Outcome::Ignored);
}

#[test]
fn missing_responder_fails_when_matched() {
    let mut session = session_with(OP_A, Each::new().call(Matcher::Any).once().each());
    assert!(matches!(session.call(OP_A, &s("x"), true).unwrap_err(), MockError::NoOutput { op: OP_A, pattern: 0 }));
    assert!(session.verify().is_ok());
}

#[test]
fn responders_produce_values() {
    let mut session = session_with(
        OP_A,
        Each::new().call(eq("d")).returns_default().each().call(Matcher::Any).answers().each(),
    );
    assert_eq!(session.call(OP_A, &s("d"), true).unwrap(), Outcome::Output(0));
    assert_eq!(session.call(OP_A, &s("hello"), true).unwrap(), Outcome::Output(5));
    assert_eq!(session.call(OP_A, &s("é"), true).unwrap(), Outcome::Output(2));
}

#[test]
fn last_configuration_wins() {
    let each = Each::new().call(Matcher::Any).returns_value(1).panics(s("no")).returns_value(7).at_least(5).once().each();
    let mut session = session_with(OP_A, each);
    assert_eq!(session.call(OP_A, &s("x"), true).unwrap(), Outcome::Output(7));
    assert!(session.verify().is_ok());
}

#[test]
fn built_patterns_keep_insertion_order() {
    let pats = Each::new().call(eq("a")).each().call(Matcher::Any).returns_value(4).each().build();
    assert_eq!(pats.len(), 2);
    assert_eq!(pats[0].index, 0);
    assert_eq!(pats[1].index, 1);
    assert!(matches!(pats[0].responder, Responder::Unset));
    assert!(matches!(pats[1].responder, Responder::Value(4)));
    assert!(matches!(pats[0].matcher, Matcher::Equals(ref v) if v == "a"));
}

#[test]
fn counter_ticks_and_checks() {
    let mut c = CallCounter::new(CountExpectation::Exactly(2));
    assert!(!c.is_satisfied());
    assert!(c.tick());
    assert!(c.tick());
    assert_eq!(c.actual, 2);
    assert!(c.is_satisfied());
    assert!(c.is_exhausted());
    let mut full = CallCounter { actual: usize::MAX, expectation: CountExpectation::Unconstrained };
    assert!(!full.tick());
    assert_eq!(full.actual, usize::MAX);
    assert!(!CallCounter::new(CountExpectation::AtLeast(0)).is_exhausted());
}

#[test]
fn output_ownership_names() {
    assert_eq!(OutputOwnership::Owned.eval_fn(), "eval");
    assert_eq!(OutputOwnership::SelfReference.eval_fn(), "eval_borrowed");
    assert_eq!(OutputOwnership::ParamReference.eval_fn(), "eval_borrowed_param");
    assert_eq!(OutputOwnership::StaticReference.eval_fn(), "eval_static_ref");
    assert_eq!(OutputOwnership::Mixed.eval_fn(), "eval");
    assert_eq!(OutputOwnership::Owned.output_mediator(), "Owned");
    assert_eq!(OutputOwnership::SelfReference.output_mediator(), "Borrowed");
    assert_eq!(OutputOwnership::ParamReference.output_mediator(), "StaticRef");
    assert_eq!(OutputOwnership::StaticReference.output_mediator(), "StaticRef");
    assert_eq!(OutputOwnership::Mixed.output_mediator(), "Mixed");
}

#[test]
fn mixed_ownership_rules() {
    let b = |i, e, s| BorrowInfo { has_input_lifetime: i, has_elided_reference: e, has_self_reference: s };
    assert_eq!(determine_mixed_ownership(&b(true, true, true)), OutputOwnership::Owned);
    assert_eq!(determine_mixed_ownership(&b(false, true, false)), OutputOwnership::Mixed);
    assert_eq!(determine_mixed_ownership(&b(false, false, true)), OutputOwnership::Mixed);
    assert_eq!(determine_mixed_ownership(&b(false, false, false)), OutputOwnership::Owned);
}
