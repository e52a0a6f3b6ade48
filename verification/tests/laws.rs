use std::cell::Cell;
use std::rc::Rc;

use runit::{assert_equals, assert_true, describe, it, pit, suite, Failable, TestSuite};

fn sample() -> TestSuite {
    TestSuite::of(
        "root",
        vec![
            it("first", || assert_true(true)),
            pit("second", |x| assert_equals(x, 1), vec![1, 2]),
            it("third", || assert_equals(1 + 2, 3)),
        ],
        vec![
            describe("alpha", vec![it("a", || Ok(()))]),
            suite("beta", vec![describe("gamma", vec![it("g", || assert_true(false))])]),
            describe("delta", vec![]),
        ],
    )
}

#[test]
fn case_reports_keep_declaration_order() {
    let report = sample().run();
    let names: Vec<&str> = report.cases().iter().map(|case| case.name()).collect();
    assert_eq!(names, vec!["first", "second", "second", "third"]);
}

#[test]
fn suite_reports_keep_declaration_order() {
    let report = sample().run();
    let names: Vec<&str> = report.suites().iter().map(|nested| nested.name()).collect();
    assert_eq!(names, vec!["alpha", "beta", "delta"]);
    assert_eq!(report.suites()[1].suites()[0].name(), "gamma");
}

#[test]
fn suite_getters_show_what_was_declared() {
    let suite = sample();
    assert_eq!(suite.name(), "root");
    assert_eq!(suite.cases().len(), 3);
    let names: Vec<&str> = suite.suites().iter().map(|nested| nested.name()).collect();
    assert_eq!(names, vec!["alpha", "beta", "delta"]);
}

#[test]
fn own_cases_run_before_nested_suites() {
    let clock = Rc::new(Cell::new(0u32));
    let nested_at = Rc::new(Cell::new(0u32));
    let own_at = Rc::new(Cell::new(0u32));
    let (clock_a, clock_b) = (clock.clone(), clock.clone());
    let (nested_seen, own_seen) = (nested_at.clone(), own_at.clone());
    let root = TestSuite::of(
        "root",
        vec![it("own", move || {
            clock_a.set(clock_a.get() + 1);
            own_seen.set(clock_a.get());
            Ok(())
        })],
        vec![describe(
            "nested",
            vec![it("inner", move || {
                clock_b.set(clock_b.get() + 1);
                nested_seen.set(clock_b.get());
                Ok(())
            })],
        )],
    );
    root.run();
    assert_eq!(own_at.get(), 1);
    assert_eq!(nested_at.get(), 2);
}

#[test]
fn two_runs_of_one_suite_give_equal_reports() {
    let suite = sample();
    let first = suite.run();
    let second = suite.run();
    assert_eq!(first, second);
    assert!(first.same_as(&second));
    assert_eq!(first.succeeded(), second.succeeded());
}

#[test]
fn runs_differ_where_a_body_is_not_deterministic() {
    let flip = Rc::new(Cell::new(false));
    let seen = flip.clone();
    let suite = describe(
        "flaky",
        vec![it("flips", move || {
            seen.set(!seen.get());
            assert_true(seen.get())
        })],
    );
    let first = suite.run();
    let second = suite.run();
    assert!(first.succeeded());
    assert!(second.failed());
    assert_ne!(first, second);
}

#[test]
fn suite_of_passing_cases_succeeds_at_every_level() {
    let report = suite(
        "all good",
        vec![
            describe("one", vec![it("a", || Ok(())), pit("b", |_x| Ok(()), vec![7, 8, 9])]),
            suite("two", vec![describe("three", vec![it("c", || assert_equals("x", "x"))])]),
        ],
    )
    .run();
    assert!(report.succeeded());
    assert!(report.suites().iter().all(|nested| nested.succeeded()));
    assert_eq!(report.suites()[0].cases().len(), 4);
}

#[test]
fn always_failing_case_fails_the_suite_at_any_depth() {
    let report = suite(
        "one",
        vec![suite(
            "two",
            vec![suite("three", vec![describe("four", vec![it("deep", || Err(String::from("deep down")))])])],
        )],
    )
    .run();
    assert!(report.failed());
    let two = &report.suites()[0];
    let three = &two.suites()[0];
    let four = &three.suites()[0];
    assert!(two.failed());
    assert!(three.failed());
    assert!(four.failed());
    assert!(four.cases()[0].failed());
}

#[test]
fn success_and_failure_are_always_opposite() {
    for report in [sample().run(), suite("empty", vec![]).run(), describe("ok", vec![it("a", || Ok(()))]).run()] {
        assert_eq!(report.succeeded(), !report.failed());
        for case in report.cases() {
            assert_eq!(case.succeeded(), !case.failed());
            assert_eq!(case.result().succeeded(), !case.result().failed());
        }
    }
}
