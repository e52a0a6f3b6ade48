use runit::report::{success_to_exit_code, UNKNOWN_REASON};
use runit::{describe, it, suite, AnyCase, Failable, TestCaseReport, TestResult, TestSuite, TestSuiteReport};

fn no_cases() -> Vec<AnyCase> {
    Vec::new()
}

#[test]
fn empty_suite_succeeds() {
    let report = TestSuite::of("empty", no_cases(), vec![]).run();
    assert!(report.succeeded());
    assert!(!report.failed());
    assert_eq!(report.name(), "empty");
    assert!(report.cases().is_empty());
    assert!(report.suites().is_empty());
}

#[test]
fn suite_of_empty_suites_succeeds() {
    let report = suite("outer", vec![describe("a", no_cases()), suite("b", vec![])]).run();
    assert!(report.succeeded());
    assert_eq!(report.suites().len(), 2);
    assert!(report.suites()[0].succeeded());
    assert!(report.suites()[1].succeeded());
}

#[test]
fn empty_report_succeeds() {
    let report = TestSuiteReport::of("nothing", vec![], vec![]);
    assert!(report.succeeded());
    assert!(!report.failed());
}

#[test]
fn pass_makes_a_passing_report() {
    let report = TestCaseReport::pass("fine");
    assert_eq!(report.name(), "fine");
    assert_eq!(*report.result(), TestResult::Pass);
    assert!(report.succeeded());
    assert!(!report.failed());
}

#[test]
fn fail_makes_a_failing_report_with_the_reason() {
    let report = TestCaseReport::fail("broken", "because");
    assert_eq!(report.name(), "broken");
    assert_eq!(*report.result(), TestResult::Fail(String::from("because")));
    assert!(!report.succeeded());
    assert!(report.failed());
}

#[test]
fn fail_without_a_reason_records_the_placeholder() {
    let report = TestCaseReport::fail("broken", "");
    assert_eq!(*report.result(), TestResult::Fail(String::from(UNKNOWN_REASON)));
    assert_eq!(*report.result(), TestResult::Fail(String::from("unknown reason")));
}

#[test]
fn results_succeed_and_fail_as_a_pair() {
    assert!(TestResult::Pass.succeeded());
    assert!(!TestResult::Pass.failed());
    let failure = TestResult::Fail(String::from("no"));
    assert!(!failure.succeeded());
    assert!(failure.failed());
}

#[test]
fn of_keeps_name_and_parts_in_order() {
    let report = TestSuiteReport::of(
        "top",
        vec![TestCaseReport::pass("a"), TestCaseReport::fail("b", "bad"), TestCaseReport::pass("c")],
        vec![TestSuiteReport::of("x", vec![], vec![]), TestSuiteReport::of("y", vec![], vec![])],
    );
    assert_eq!(report.name(), "top");
    let names: Vec<&str> = report.cases().iter().map(|case| case.name()).collect();
    assert_eq!(names, vec!["a", "b", "c"]);
    let nested: Vec<&str> = report.suites().iter().map(|suite| suite.name()).collect();
    assert_eq!(nested, vec!["x", "y"]);
}

#[test]
fn report_with_one_failing_case_fails() {
    let report = TestSuiteReport::of(
        "top",
        vec![TestCaseReport::pass("a"), TestCaseReport::fail("b", "bad")],
        vec![],
    );
    assert!(!report.succeeded());
    assert!(report.failed());
}

#[test]
fn report_with_only_passing_cases_succeeds() {
    let report = TestSuiteReport::of(
        "top",
        vec![TestCaseReport::pass("a"), TestCaseReport::pass("b")],
        vec![TestSuiteReport::of("inner", vec![TestCaseReport::pass("c")], vec![])],
    );
    assert!(report.succeeded());
    assert!(!report.failed());
}

#[test]
fn report_with_a_failing_nested_report_fails() {
    let inner = TestSuiteReport::of("inner", vec![TestCaseReport::fail("c", "bad")], vec![]);
    let middle = TestSuiteReport::of("middle", vec![TestCaseReport::pass("b")], vec![inner]);
    let report = TestSuiteReport::of("top", vec![TestCaseReport::pass("a")], vec![middle]);
    assert!(!report.succeeded());
    assert!(!report.suites()[0].succeeded());
    assert!(!report.suites()[0].suites()[0].succeeded());
}

#[test]
fn exit_code_is_zero_for_success_and_one_for_failure() {
    assert_eq!(success_to_exit_code(true), 0);
    assert_eq!(success_to_exit_code(false), 1);
    let good = describe("good", vec![it("fine", || Ok(()))]).run();
    assert_eq!(good.exit_code(), 0);
    let bad = describe("bad", vec![it("broken", || Err(String::from("no")))]).run();
    assert_eq!(bad.exit_code(), 1);
    let empty = suite("empty", vec![]).run();
    assert_eq!(empty.exit_code(), 0);
}

#[test]
fn print_hands_the_report_over_and_gives_it_back() {
    let report = describe("shown", vec![it("fine", || Ok(()))]).run();
    let seen = std::cell::RefCell::new(Vec::new());
    let same = report.print(|shown: &TestSuiteReport| seen.borrow_mut().push(shown.name()));
    assert!(std::ptr::eq(same, &report));
    assert_eq!(*seen.borrow(), vec!["shown"]);
    assert_eq!(report.print(|_shown| ()).exit_code(), 0);
}

#[test]
fn equal_reports_compare_equal() {
    let make = || {
        TestSuiteReport::of(
            "top",
            vec![TestCaseReport::pass("a"), TestCaseReport::fail("b", "bad")],
            vec![TestSuiteReport::of("inner", vec![TestCaseReport::pass("c")], vec![])],
        )
    };
    assert_eq!(make(), make());
    assert!(make().same_as(&make()));
}

#[test]
fn reports_that_differ_anywhere_compare_unequal() {
    let base = TestSuiteReport::of(
        "top",
        vec![TestCaseReport::pass("a")],
        vec![TestSuiteReport::of("inner", vec![TestCaseReport::fail("c", "bad")], vec![])],
    );
    let other_name = TestSuiteReport::of(
        "pot",
        vec![TestCaseReport::pass("a")],
        vec![TestSuiteReport::of("inner", vec![TestCaseReport::fail("c", "bad")], vec![])],
    );
    let other_case = TestSuiteReport::of(
        "top",
        vec![TestCaseReport::pass("b")],
        vec![TestSuiteReport::of("inner", vec![TestCaseReport::fail("c", "bad")], vec![])],
    );
    let other_reason = TestSuiteReport::of(
        "top",
        vec![TestCaseReport::pass("a")],
        vec![TestSuiteReport::of("inner", vec![TestCaseReport::fail("c", "worse")], vec![])],
    );
    let other_outcome = TestSuiteReport::of(
        "top",
        vec![TestCaseReport::pass("a")],
        vec![TestSuiteReport::of("inner", vec![TestCaseReport::pass("c")], vec![])],
    );
    let fewer = TestSuiteReport::of("top", vec![TestCaseReport::pass("a")], vec![]);
    assert_ne!(base, other_name);
    assert_ne!(base, other_case);
    assert_ne!(base, other_reason);
    assert_ne!(base, other_outcome);
    assert_ne!(base, fewer);
    assert_ne!(TestCaseReport::pass("a"), TestCaseReport::fail("a", "x"));
    assert_ne!(TestResult::Pass, TestResult::Fail(String::from("x")));
    assert_eq!(TestResult::Fail(String::from("x")), TestResult::Fail(String::from("x")));
}
