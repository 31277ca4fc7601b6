use unit_testing::assertions::Assert;
use unit_testing::errors::{CheckError, SetupError};
use unit_testing::output::{
    ASSERT_EQUALS, ASSERT_SHOULD_BE_EQUALS, IS_BETWEEN, IS_CONTAINS, IS_EQUALS, IS_UNEQUALS,
    THEORY_IS_FALSE, THEORY_IS_TRUE,
};
use unit_testing::unit::Unit;

#[test]
fn permissive_counts_match_manual_tally() {
    let u = Unit::new(0).eq(4, 4).eq(4, 5).gt(5, 2);
    assert_eq!(u.success_count(), 2);
    assert_eq!(u.failure_count(), 1);
    assert_eq!(u.len(), 3);
    unit_testing::unit::counts_partition(&u);
    let report = u.end();
    assert_eq!(report.successes, 2);
    assert_eq!(report.failures, 1);
    assert!(!report.passed());
}

#[test]
fn strict_aborts_at_first_failure() {
    let a = Assert::new(0);
    let a = a.eq(4, 4).unwrap();
    assert_eq!(a.len(), 1);
    let aborted = a.eq(4, 5);
    match aborted {
        Ok(_) => panic!("a failing check must abort the strict run"),
        Err(failure) => {
            assert_eq!(failure.success_message, ASSERT_EQUALS);
            assert_eq!(failure.failure_message, ASSERT_SHOULD_BE_EQUALS);
        },
    }
}

#[test]
fn strict_all_passing_keeps_every_record() {
    let a = Assert::new(0).eq(4, 4).unwrap().gt(5, 2).unwrap().ok(true).unwrap();
    assert_eq!(a.len(), 3);
    unit_testing::assertions::strict_no_failures(&a);
    let report = a.end();
    assert_eq!(report.total(), 3);
    assert_eq!(report.successes, 3);
    assert_eq!(report.failures, 0);
    assert!(report.passed());
}

#[test]
fn between_bounds_are_strict() {
    let u = Unit::new(0).between(10, 5, 50).between(50, 10, 200).between(5, 5, 50);
    assert_eq!(u.success_count(), 2);
    assert_eq!(u.failure_count(), 1);
    assert!(Assert::new(0).between(10, 5, 50).is_ok());
    assert!(Assert::new(0).between(50, 10, 200).is_ok());
    assert!(Assert::new(0).between(5, 5, 50).is_err());
}

#[test]
fn empty_run_is_a_vacuous_success() {
    let report = Unit::new(0).end();
    assert_eq!(report.successes, 0);
    assert_eq!(report.failures, 0);
    assert_eq!(report.total(), 0);
    assert!(report.passed());
    let strict = Assert::new(0).end();
    assert_eq!(strict.total(), 0);
    assert!(strict.passed());
}

#[test]
fn rendering_twice_is_identical() {
    let u = Unit::new(0).ok(true).ok(false).eq(1, 1);
    let first = u.end();
    let second = u.end();
    assert_eq!(first.total(), second.total());
    assert_eq!(first.successes, second.successes);
    assert_eq!(first.failures, second.failures);
    for (a, b) in first.lines.iter().zip(second.lines.iter()) {
        assert_eq!(a.passed(), b.passed());
        assert_eq!(a.message(), b.message());
    }
}

#[test]
fn theory_records_success_iff_producer_matches() {
    let u = Unit::new(0).theory(4, || 4).theory(4, || 5);
    assert_eq!(u.success_count(), 1);
    assert_eq!(u.failure_count(), 1);
    let report = u.end();
    assert_eq!(report.lines[0].message(), THEORY_IS_TRUE);
    assert_eq!(report.lines[1].message(), THEORY_IS_FALSE);
}

#[test]
fn chaos_expects_instability() {
    let u = Unit::new(0).chaos(|| false).chaos(|| true);
    assert_eq!(u.success_count(), 1);
    assert_eq!(u.failure_count(), 1);
}

#[test]
fn theorem_compares_expected_with_produced() {
    let u = Unit::new(0).theorem(7, || 7).theorem(7, || 8);
    assert_eq!(u.success_count(), 1);
    assert_eq!(u.failure_count(), 1);
}

#[test]
fn elapsed_time_is_never_negative() {
    let report = Unit::new(0).eq(1, 1).ok(true).end();
    let mut total: u128 = 0;
    for line in report.lines.iter() {
        total = total.saturating_add(line.elapsed_nanos());
    }
    assert!(total >= 0u128);
    assert_eq!(report.total(), 2);
}

#[test]
fn messages_follow_the_outcome() {
    let report = Unit::new(0).eq(1, 1).eq(1, 2).end();
    assert_eq!(report.lines[0].message(), IS_EQUALS);
    assert!(report.lines[0].passed());
    assert_eq!(report.lines[1].message(), IS_UNEQUALS);
    assert!(!report.lines[1].passed());
}

#[test]
fn between_message_is_recorded() {
    let report = Unit::new(0).between(10, 5, 50).end();
    assert_eq!(report.lines[0].message(), IS_BETWEEN);
}

#[test]
fn matches_classifies_each_value() {
    let outcome = Unit::new(0).matches(
        "^[0-9]+$",
        vec!["123".to_string(), "abc".to_string()],
    );
    let u = outcome.unwrap();
    assert_eq!(u.success_count(), 1);
    assert_eq!(u.failure_count(), 1);
}

#[test]
fn invalid_pattern_is_a_setup_error() {
    let outcome = Unit::new(0).matches("(", vec!["123".to_string()]);
    assert_eq!(outcome.unwrap_err(), SetupError::InvalidPattern);
    let strict = Assert::new(0).matches("(", vec!["123".to_string()]);
    assert_eq!(strict.unwrap_err(), CheckError::Setup(SetupError::InvalidPattern));
}

#[test]
fn capture_compares_the_group_text() {
    let u = Unit::new(0)
        .capture("([a-z]+)-([0-9]+)", "abc-42", 2, vec!["42".to_string(), "41".to_string()])
        .unwrap();
    assert_eq!(u.success_count(), 1);
    assert_eq!(u.failure_count(), 1);
}

#[test]
fn missing_capture_group_is_a_setup_error() {
    let outcome = Unit::new(0).capture("([a-z]+)", "abc", 5, vec!["abc".to_string()]);
    assert_eq!(outcome.unwrap_err(), SetupError::MissingCapture);
    let unmatched = Unit::new(0).capture("^[0-9]+$", "abc", 0, vec!["abc".to_string()]);
    assert_eq!(unmatched.unwrap_err(), SetupError::MissingCapture);
}

#[test]
fn strict_matches_aborts_on_first_miss() {
    let strict = Assert::new(0).matches(
        "^[0-9]+$",
        vec!["12".to_string(), "no".to_string(), "34".to_string()],
    );
    match strict {
        Err(CheckError::Failed(_)) => {},
        _ => panic!("a value the pattern misses must abort the strict run"),
    }
    let passing = Assert::new(0).matches("^[0-9]+$", vec!["12".to_string(), "34".to_string()]);
    assert_eq!(passing.unwrap().len(), 2);
}

#[test]
fn substring_checks_read_the_text() {
    let u = Unit::new(0)
        .str_contains("hello world", "lo w")
        .str_contains("hello", "zzz")
        .start_with("hello", "he")
        .start_with("hello", "lo")
        .end_with("hello", "lo")
        .end_with("hello", "he");
    assert_eq!(u.success_count(), 3);
    assert_eq!(u.failure_count(), 3);
}

#[test]
fn containment_checks_search_the_collection() {
    let u = Unit::new(0)
        .vec_contains(vec![1, 2, 3], 2)
        .vec_contains(vec![1, 2, 3], 9)
        .vec_no_contains(vec![1, 2, 3], 9)
        .option_contains(Some(5), 5)
        .option_contains(Some(5), 6);
    assert_eq!(u.success_count(), 3);
    assert_eq!(u.failure_count(), 2);
    let report = u.end();
    assert_eq!(report.lines[0].message(), IS_CONTAINS);
}

#[test]
fn batch_callbacks_are_classified_in_order() {
    fn yes() -> bool {
        true
    }
    fn no() -> bool {
        false
    }
    let u = Unit::new(0).success(vec![yes as fn() -> bool, no]);
    assert_eq!(u.success_count(), 1);
    assert_eq!(u.failure_count(), 1);
    let u = Unit::new(0).fail(vec![no as fn() -> bool, yes]);
    assert_eq!(u.success_count(), 1);
    assert_eq!(u.failure_count(), 1);
    assert!(Assert::new(0).success(vec![yes as fn() -> bool, yes]).is_ok());
    assert!(Assert::new(0).success(vec![yes as fn() -> bool, no]).is_err());
    assert!(Assert::new(0).fail(vec![no as fn() -> bool]).is_ok());
    assert!(Assert::new(0).fail(vec![yes as fn() -> bool]).is_err());
}

#[test]
fn take_and_check_record_the_given_outcome() {
    let mut u = Unit::new(0);
    u.check(true, "fine", "broken");
    u.check(false, "fine", "broken");
    assert_eq!(u.success_count(), 1);
    assert_eq!(u.failure_count(), 1);
    let u = u.take(true, "fine", "broken");
    assert_eq!(u.success_count(), 2);
    let report = u.end();
    assert_eq!(report.lines[1].message(), "broken");
    assert_eq!(report.lines[2].message(), "fine");
}

#[test]
fn pacing_delay_is_carried_to_the_report() {
    let report = Unit::new(7).ok(true).end();
    assert_eq!(report.pace_millis, 7);
    let report = Unit::new(0).end();
    assert_eq!(report.pace_millis, 0);
}

#[test]
fn record_keeps_the_given_duration_and_wording() {
    let u = Unit::new(0).record(true, 5, "well", "badly");
    let report = u.end();
    assert_eq!(report.lines[0].elapsed_nanos(), 5);
    assert_eq!(report.lines[0].message(), "well");
    assert!(report.lines[0].passed());
    let u = Unit::new(0).record(false, 7, "well", "badly");
    let report = u.end();
    assert_eq!(report.lines[0].elapsed_nanos(), 7);
    assert_eq!(report.lines[0].message(), "badly");
    let strict = Assert::new(0).record(true, 9, "well", "badly").unwrap();
    assert_eq!(strict.end().lines[0].elapsed_nanos(), 9);
    match Assert::new(0).record(false, 9, "well", "badly") {
        Ok(_) => panic!("a failing record must abort the strict run"),
        Err(failure) => {
            assert_eq!(failure.success_message, "well");
            assert_eq!(failure.failure_message, "badly");
        },
    }
}
